use chrono::Datelike;
use chrono::NaiveDate;
use data_generation::customers::generate_customers_with;
use data_generation::dates::Today;
use data_generation::dates::EPOCH_DAY;
use data_generation::dates::FIRST_DAY;
use data_generation::dates::FIRST_FOUR_DIGIT_DAY;
use data_generation::dates::LAST_FOUR_DIGIT_DAY;
use data_generation::dates::LAST_DAY;
use data_generation::dates::MAX_DAYS_BACK;
use data_generation::orders::generate_orders;
use data_generation::orders::generate_orders_with;
use data_generation::random::RandomSource;

#[test]
fn the_day_limits_are_those_of_the_calendar() {
    assert_eq!(NaiveDate::MIN.num_days_from_ce(), FIRST_DAY);
    assert_eq!(NaiveDate::MAX.num_days_from_ce(), LAST_DAY);
    assert_eq!(NaiveDate::from_ymd_opt(1970, 1, 1).unwrap().num_days_from_ce(), EPOCH_DAY);
    assert!(NaiveDate::from_num_days_from_ce_opt(FIRST_DAY).is_some());
    assert!(NaiveDate::from_num_days_from_ce_opt(LAST_DAY).is_some());
    assert!(NaiveDate::from_num_days_from_ce_opt(FIRST_DAY - 1).is_none());
    assert!(NaiveDate::from_num_days_from_ce_opt(LAST_DAY + 1).is_none());
    assert_eq!(MAX_DAYS_BACK, 365);
}

#[test]
fn a_day_number_gives_its_iso_date() {
    let today = Today::from_day_number(738_000).unwrap();
    assert_eq!(today.number(), 738_000);
    assert_eq!(today.date_text_before(0), "2021-07-29");
    assert_eq!(today.date_text_before(1), "2021-07-28");
    assert_eq!(today.date_text_before(365), "2020-07-29");
    let epoch_plus_year = Today::from_day_number(719_528).unwrap();
    assert_eq!(epoch_plus_year.date_text_before(0), "1971-01-01");
    assert_eq!(epoch_plus_year.date_text_before(365), "1970-01-01");
    let early = Today::from_day_number(366).unwrap();
    assert_eq!(early.date_text_before(365), "0001-01-01");
    assert_eq!(early.date_text_before(0), "0002-01-01");
}

#[test]
fn a_day_needs_a_year_of_days_before_it() {
    assert!(Today::from_day_number(FIRST_DAY).is_none());
    assert!(Today::from_day_number(FIRST_DAY + 364).is_none());
    assert!(Today::from_day_number(LAST_DAY + 1).is_none());
    assert!(Today::from_day_number(i32::MAX).is_none());
    assert!(Today::from_day_number(i32::MIN).is_none());
    let first = Today::from_day_number(FIRST_DAY + 365).unwrap();
    assert_eq!(first.date_text_before(365), "-262143-01-01");
    let last = Today::from_day_number(LAST_DAY).unwrap();
    assert_eq!(last.date_text_before(0), "+262142-12-31");
}

#[test]
fn now_is_the_current_day() {
    let before = chrono::Utc::now().date_naive().num_days_from_ce();
    let today = Today::now();
    let after = chrono::Utc::now().date_naive().num_days_from_ce();
    assert!(before <= today.number() && today.number() <= after);
    assert!(today.number() >= EPOCH_DAY);
    assert_eq!(today.date_text_before(0).len(), 10);
}

#[test]
fn order_dates_lie_within_the_year_before_the_day() {
    let today = Today::from_day_number(738_000).unwrap();
    let statuses = vec!["Pending"];
    let mut source = RandomSource::from_seed(23);
    let customers = generate_customers_with(&mut source, 40);
    let orders =
        generate_orders_with(&mut source, &today, &customers, 5, 10, &statuses, true).unwrap();
    let mut earliest = 738_000;
    let mut latest = 738_000 - 365;
    for order in orders.iter() {
        let date = NaiveDate::parse_from_str(&order.order_date, "%Y-%m-%d").unwrap();
        let day = date.num_days_from_ce();
        assert!(day <= 738_000);
        assert!(day >= 738_000 - 365);
        assert_eq!(order.order_date, date.format("%Y-%m-%d").to_string());
        earliest = earliest.min(day);
        latest = latest.max(day);
    }
    assert!(latest - earliest > 300);
}

#[test]
fn orders_of_today_are_dated_within_the_past_year() {
    let mut source = RandomSource::from_seed(29);
    let customers = generate_customers_with(&mut source, 5);
    let statuses = vec!["Pending"];
    let before = chrono::Utc::now().date_naive().num_days_from_ce();
    let orders = generate_orders(&customers, 2, 2, &statuses, false).unwrap();
    let after = chrono::Utc::now().date_naive().num_days_from_ce();
    assert_eq!(orders.len(), 10);
    for order in orders.iter() {
        let date = NaiveDate::parse_from_str(&order.order_date, "%Y-%m-%d").unwrap();
        let day = date.num_days_from_ce();
        assert!(day >= before - 365);
        assert!(day <= after);
    }
}

fn has_iso_form(text: &str) -> bool {
    let chars: Vec<char> = text.chars().collect();
    chars.len() == 10
        && chars.iter().enumerate().all(|(i, c)| {
            if i == 4 || i == 7 {
                *c == '-'
            } else {
                c.is_ascii_digit()
            }
        })
}

#[test]
fn the_years_of_four_digits_begin_and_end_where_stated() {
    assert_eq!(
        NaiveDate::from_ymd_opt(1000, 1, 1).unwrap().num_days_from_ce(),
        FIRST_FOUR_DIGIT_DAY
    );
    assert_eq!(
        NaiveDate::from_ymd_opt(9999, 12, 31).unwrap().num_days_from_ce(),
        LAST_FOUR_DIGIT_DAY
    );
}

#[test]
fn dates_in_years_of_four_digits_have_the_iso_form() {
    let first = Today::from_day_number(FIRST_FOUR_DIGIT_DAY + 365).unwrap();
    assert_eq!(first.date_text_before(365), "1000-01-01");
    assert_eq!(first.date_text_before(0), "1001-01-01");
    let last = Today::from_day_number(LAST_FOUR_DIGIT_DAY).unwrap();
    assert_eq!(last.date_text_before(0), "9999-12-31");
    assert_eq!(last.date_text_before(30), "9999-12-01");
    let mut day = FIRST_FOUR_DIGIT_DAY + 365;
    while day <= LAST_FOUR_DIGIT_DAY {
        let today = Today::from_day_number(day).unwrap();
        for back in [0usize, 1, 31, 364, 365] {
            assert!(has_iso_form(&today.date_text_before(back)));
        }
        day += 997;
    }
    let beyond = Today::from_day_number(LAST_FOUR_DIGIT_DAY + 1).unwrap();
    assert_eq!(beyond.date_text_before(0), "+10000-01-01");
    assert!(!has_iso_form(&beyond.date_text_before(0)));
}
