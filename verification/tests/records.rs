use num_bigint::BigUint;
use prime_generator::powers::{calculate_powers, powers_of};
use prime_generator::record::{header_row, PrimeRecord};
use prime_generator::sink::{flush_to_csv, write_to_csv, CsvSink};
use prime_generator::wide::Wide;

fn record(prime: u128) -> PrimeRecord {
    let (squared, cubed, to_fourth_power) = calculate_powers(prime).unwrap();
    PrimeRecord::new(prime, &squared, &cubed, &to_fourth_power)
}

fn check_powers(n: u128) {
    let (squared, cubed, to_fourth_power) = calculate_powers(n).unwrap();
    let big: BigUint = BigUint::from(n);
    let expected_square: BigUint = &big * &big;
    let expected_cube: BigUint = &expected_square * &big;
    let expected_fourth: BigUint = &expected_cube * &big;
    assert_eq!(BigUint::new(squared.digits.clone()), expected_square, "n = {}", n);
    assert_eq!(BigUint::new(cubed.digits.clone()), expected_cube, "n = {}", n);
    assert_eq!(BigUint::new(to_fourth_power.digits.clone()), expected_fourth, "n = {}", n);
    let made: PrimeRecord = PrimeRecord::new(n, &squared, &cubed, &to_fourth_power);
    assert_eq!(made.prime, n);
    assert_eq!(made.squared, expected_square.to_string());
    assert_eq!(made.cubed, expected_cube.to_string());
    assert_eq!(made.to_fourth_power, expected_fourth.to_string());
}

#[test]
fn powers_of_five() {
    let (squared, cubed, to_fourth_power) = calculate_powers(5).unwrap();
    assert_eq!(squared.digits, vec![25u32]);
    assert_eq!(cubed.digits, vec![125u32]);
    assert_eq!(to_fourth_power.digits, vec![625u32]);
}

#[test]
fn powers_of_small_primes_match_independent_multiplication() {
    let primes: [u128; 9] = [2, 3, 5, 7, 11, 13, 65537, 1_000_003, 2_147_483_647];
    for p in primes {
        check_powers(p);
    }
}

#[test]
fn powers_of_zero_and_one() {
    let zero: PrimeRecord = record(0);
    assert_eq!(zero.squared, "0");
    assert_eq!(zero.cubed, "0");
    assert_eq!(zero.to_fourth_power, "0");
    let one: PrimeRecord = record(1);
    assert_eq!(one.squared, "1");
    assert_eq!(one.cubed, "1");
    assert_eq!(one.to_fourth_power, "1");
}

#[test]
fn powers_of_a_prime_whose_square_exceeds_128_bits() {
    let n: u128 = (1u128 << 89) - 1;
    check_powers(n);
    let made: PrimeRecord = record(n);
    assert_eq!(made.squared, "383123885216472214589586755549637256619304505646776321");
    assert_eq!(
        made.cubed,
        "237142198758023568227473376148421179634080284826471606646987303262222160213573631"
    );
    assert_eq!(
        made.to_fourth_power,
        "146783911423364576743092536350764769178885886396876485026777655885608637226256065354828356063571819406295041"
    );
}

#[test]
fn powers_of_primes_near_two_to_the_hundred() {
    let n: u128 = (1u128 << 107) - 1;
    check_powers(n);
    let made: PrimeRecord = record(n);
    assert_eq!(made.squared, "26328072917139296674479506920917283561170115423410494657557168129");
    assert_eq!(
        made.to_fourth_power,
        "693167423530203714894603546035753837962821901563294983618970538894706942818063332584711066718677316207776883863320809829973360641"
    );
    check_powers((1u128 << 127) - 1);
    check_powers(u128::MAX);
}

#[test]
fn powers_are_absent_only_for_an_absent_number() {
    assert!(powers_of(None).is_none());
    let (squared, cubed, to_fourth_power) = powers_of(Some(Wide::from_digits(vec![3]))).unwrap();
    assert_eq!(squared.digits, vec![9u32]);
    assert_eq!(cubed.digits, vec![27u32]);
    assert_eq!(to_fourth_power.digits, vec![81u32]);
}

#[test]
fn powers_of_a_number_beyond_128_bits() {
    let n: BigUint = (BigUint::from(1u32) << 130usize) + 3u32;
    let (squared, cubed, to_fourth_power) =
        powers_of(Some(Wide::from_digits(n.to_u32_digits()))).unwrap();
    assert_eq!(BigUint::new(squared.digits), &n * &n);
    assert_eq!(BigUint::new(cubed.digits), &n * &n * &n);
    assert_eq!(BigUint::new(to_fourth_power.digits), &n * &n * &n * &n);
}

#[test]
fn record_texts_are_decimal() {
    let made: PrimeRecord = PrimeRecord::new(
        7,
        &Wide::from_digits(vec![49]),
        &Wide::from_digits(vec![0, 1]),
        &Wide::from_digits(Vec::new()),
    );
    assert_eq!(made.prime, 7);
    assert_eq!(made.squared, "49");
    assert_eq!(made.cubed, "4294967296");
    assert_eq!(made.to_fourth_power, "0");
}

#[test]
fn row_of_five() {
    assert_eq!(record(5).to_row(), "5,25,125,625\n");
}

#[test]
fn row_of_a_wide_prime() {
    let n: u128 = (1u128 << 89) - 1;
    assert_eq!(
        record(n).to_row(),
        "618970019642690137449562111,383123885216472214589586755549637256619304505646776321,237142198758023568227473376148421179634080284826471606646987303262222160213573631,146783911423364576743092536350764769178885886396876485026777655885608637226256065354828356063571819406295041\n"
    );
}

#[test]
fn row_uses_the_fields_as_they_are() {
    let made: PrimeRecord = PrimeRecord {
        prime: 11,
        squared: String::from("a"),
        cubed: String::new(),
        to_fourth_power: String::from("c d"),
    };
    assert_eq!(made.to_row(), "11,a,,c d\n");
}

#[test]
fn header_row_names_the_four_columns() {
    assert_eq!(header_row(), "prime,squared,cubed,to_fourth_power\n");
}

#[test]
fn rows_match_what_the_csv_crate_writes() {
    let primes: [u128; 4] = [2, 5, 1_000_003, (1u128 << 107) - 1];
    let mut writer = csv::Writer::from_writer(Vec::new());
    writer.write_record(["prime", "squared", "cubed", "to_fourth_power"]).unwrap();
    let mut records: Vec<PrimeRecord> = Vec::new();
    for p in primes {
        let made: PrimeRecord = record(p);
        writer
            .write_record([
                p.to_string(),
                made.squared.clone(),
                made.cubed.clone(),
                made.to_fourth_power.clone(),
            ])
            .unwrap();
        records.push(made);
    }
    let expected: String = String::from_utf8(writer.into_inner().unwrap()).unwrap();
    assert_eq!(write_to_csv(&records, true), expected);
}

#[test]
fn rows_can_be_read_back_by_the_csv_crate() {
    let records: Vec<PrimeRecord> = vec![record(2), record(3), record(5)];
    let text: String = write_to_csv(&records, true);
    let mut reader = csv::Reader::from_reader(text.as_bytes());
    let header: Vec<String> = reader.headers().unwrap().iter().map(String::from).collect();
    assert_eq!(header, vec!["prime", "squared", "cubed", "to_fourth_power"]);
    let mut rows: Vec<Vec<String>> = Vec::new();
    for row in reader.records() {
        rows.push(row.unwrap().iter().map(String::from).collect());
    }
    assert_eq!(rows.len(), 3);
    assert_eq!(rows[2], vec!["5", "25", "125", "625"]);
}

#[test]
fn write_without_header() {
    let records: Vec<PrimeRecord> = vec![record(2), record(3)];
    assert_eq!(write_to_csv(&records, false), "2,4,8,16\n3,9,27,81\n");
    assert_eq!(records.len(), 2);
}

#[test]
fn write_with_header() {
    let records: Vec<PrimeRecord> = vec![record(2), record(3)];
    assert_eq!(
        write_to_csv(&records, true),
        "prime,squared,cubed,to_fourth_power\n2,4,8,16\n3,9,27,81\n"
    );
}

#[test]
fn nothing_is_written_for_no_record() {
    let records: Vec<PrimeRecord> = Vec::new();
    assert_eq!(write_to_csv(&records, true), "");
    assert_eq!(write_to_csv(&records, false), "");
}

#[test]
fn flush_clears_the_batch() {
    let mut batch: Vec<PrimeRecord> = vec![record(7), record(11)];
    let text: String = flush_to_csv(&mut batch, false);
    assert_eq!(text, "7,49,343,2401\n11,121,1331,14641\n");
    assert!(batch.is_empty());
    assert_eq!(flush_to_csv(&mut batch, true), "");
}

#[test]
fn header_comes_once_for_a_new_destination() {
    let mut sink: CsvSink = CsvSink::new(false);
    let mut empty: Vec<PrimeRecord> = Vec::new();
    assert_eq!(sink.flush(&mut empty), "");
    let mut first: Vec<PrimeRecord> = vec![record(2)];
    assert_eq!(sink.flush(&mut first), "prime,squared,cubed,to_fourth_power\n2,4,8,16\n");
    assert!(first.is_empty());
    let mut second: Vec<PrimeRecord> = vec![record(3), record(5)];
    assert_eq!(sink.flush(&mut second), "3,9,27,81\n5,25,125,625\n");
    assert!(second.is_empty());
}

#[test]
fn header_never_comes_for_a_destination_that_existed() {
    let mut sink: CsvSink = CsvSink::new(true);
    let mut first: Vec<PrimeRecord> = vec![record(2)];
    assert_eq!(sink.flush(&mut first), "2,4,8,16\n");
    let mut second: Vec<PrimeRecord> = vec![record(3)];
    assert_eq!(sink.flush(&mut second), "3,9,27,81\n");
}

#[test]
fn batch_by_batch_gives_the_text_of_one_write() {
    let all: Vec<PrimeRecord> = vec![record(2), record(3), record(5), record(7), record(11)];
    let whole: String = write_to_csv(&all, true);
    let mut sink: CsvSink = CsvSink::new(false);
    let mut pieces: String = String::new();
    let mut first: Vec<PrimeRecord> = all[0..2].to_vec();
    let mut second: Vec<PrimeRecord> = all[2..5].to_vec();
    pieces.push_str(&sink.flush(&mut first));
    pieces.push_str(&sink.flush(&mut second));
    assert_eq!(pieces, whole);
}
