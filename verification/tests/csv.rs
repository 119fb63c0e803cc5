use data_generation::csv_table::write_csv;
use data_generation::customers::generate_customers;
use data_generation::customers::generate_customers_with;
use data_generation::customers::Customer;
use data_generation::dates::Today;
use data_generation::orders::generate_orders;
use data_generation::orders::generate_orders_with;
use data_generation::orders::Order;
use data_generation::random::RandomSource;
use data_generation::rows::customer_header;
use data_generation::rows::customer_row;
use data_generation::rows::customer_rows;
use data_generation::rows::customers_csv;
use data_generation::rows::order_header;
use data_generation::rows::order_row;
use data_generation::rows::order_rows;
use data_generation::rows::orders_csv;

fn table(rows: &[&[&str]]) -> Vec<Vec<String>> {
    rows.iter().map(|row| row.iter().map(|field| field.to_string()).collect()).collect()
}

fn read_back(bytes: &[u8]) -> Vec<Vec<String>> {
    let mut reader = csv::ReaderBuilder::new().has_headers(false).from_reader(bytes);
    let mut rows = Vec::new();
    for record in reader.records() {
        let record = record.unwrap();
        rows.push(record.iter().map(|field| field.to_string()).collect());
    }
    rows
}

#[test]
fn test_write_csv() {
    let data = vec![
        vec!["ID".to_string(), "Name".to_string()],
        vec!["1".to_string(), "Alice".to_string()],
        vec!["2".to_string(), "Bob".to_string()],
    ];
    let contents = String::from_utf8(write_csv(&data)).unwrap();
    let expected = "ID,Name\n1,Alice\n2,Bob\n";
    assert_eq!(contents, expected);
}

#[test]
fn no_rows_give_no_bytes() {
    let data: Vec<Vec<String>> = Vec::new();
    assert_eq!(write_csv(&data), Vec::<u8>::new());
}

#[test]
fn fields_are_quoted_where_they_need_it() {
    let data = table(&[
        &["plain", "with,comma", "with \"quotes\""],
        &["line\nbreak", "carriage\rreturn", ""],
        &[" spaced ", "caf\u{e9}", "semi;colon"],
    ]);
    let contents = String::from_utf8(write_csv(&data)).unwrap();
    let expected = "plain,\"with,comma\",\"with \"\"quotes\"\"\"\n\
                    \"line\nbreak\",\"carriage\rreturn\",\n \
                    spaced ,caf\u{e9},semi;colon\n";
    assert_eq!(contents, expected);
}

#[test]
fn a_single_empty_field_is_written_in_quotes() {
    let data = table(&[&[""], &[""]]);
    let contents = String::from_utf8(write_csv(&data)).unwrap();
    assert_eq!(contents, "\"\"\n\"\"\n");
}

#[test]
fn written_rows_read_back_unchanged() {
    let data = table(&[
        &["ID", "Name", "Note"],
        &["1", "Alice", "likes, commas"],
        &["2", "Bob", "says \"hi\""],
        &["3", "Carol", "two\nlines"],
        &["4", "", "\r"],
        &["5", "Dan", " padded "],
    ]);
    let bytes = write_csv(&data);
    assert_eq!(read_back(&bytes), data);
}

#[test]
fn a_long_table_is_written_whole() {
    let mut data = Vec::new();
    for i in 0..5000usize {
        data.push(vec![i.to_string(), "x".repeat(i % 97), "y,".repeat(i % 13)]);
    }
    let bytes = write_csv(&data);
    assert_eq!(read_back(&bytes), data);
}

#[test]
fn a_field_longer_than_the_buffer_is_written_whole() {
    let data = vec![
        vec!["a".repeat(100_000), "\"".repeat(30_000)],
        vec!["b".to_string(), "c".to_string()],
    ];
    let bytes = write_csv(&data);
    assert_eq!(bytes.len(), 100_000 + 1 + (2 + 60_000) + 1 + 4);
    assert_eq!(read_back(&bytes), data);
}

#[test]
fn rows_of_unequal_length_are_written() {
    let data = table(&[&["a", "b"], &["c"]]);
    assert_eq!(String::from_utf8(write_csv(&data)).unwrap(), "a,b\nc\n");
    let data = table(&[&["a", "b"], &["c", "d"], &["e"], &["f", "g", "h"]]);
    assert_eq!(String::from_utf8(write_csv(&data)).unwrap(), "a,b\nc,d\ne\nf,g,h\n");
    let data = table(&[&["a"], &["b", "c"]]);
    assert_eq!(String::from_utf8(write_csv(&data)).unwrap(), "a\nb,c\n");
}

#[test]
fn a_row_without_fields_is_written_as_two_quotes() {
    let data = table(&[&[], &["b"], &[], &["", ""]]);
    assert_eq!(String::from_utf8(write_csv(&data)).unwrap(), "\"\"\nb\n\"\"\n,\n");
}

/// A field as the writer is said to write it.
fn expected_field(field: &str) -> String {
    if field.chars().any(|c| c == ',' || c == '"' || c == '\r' || c == '\n') {
        let mut text = String::from("\"");
        for c in field.chars() {
            if c == '"' {
                text.push('"');
            }
            text.push(c);
        }
        text.push('"');
        text
    } else {
        field.to_string()
    }
}

/// A record as the writer is said to write it.
fn expected_record(fields: &[String]) -> String {
    let mut text = String::new();
    for (i, field) in fields.iter().enumerate() {
        if i > 0 {
            text.push(',');
        }
        text.push_str(&expected_field(field));
    }
    if text.is_empty() {
        text.push_str("\"\"");
    }
    text.push('\n');
    text
}

#[test]
fn every_mix_of_characters_is_written_as_stated() {
    let alphabet = ['a', ',', '"', '\r', '\n', ' ', '\u{e9}', '\u{20ac}', '\u{1f600}', '#', '\\'];
    let mut fields: Vec<String> = vec![String::new()];
    for a in alphabet {
        fields.push(a.to_string());
        for b in alphabet {
            fields.push([a, b].iter().collect());
            for c in ['x', '"', ','] {
                fields.push([a, b, c].iter().collect());
            }
        }
    }
    let mut data: Vec<Vec<String>> = vec![Vec::new()];
    for (i, field) in fields.iter().enumerate() {
        data.push(vec![field.clone()]);
        data.push(vec![field.clone(), fields[(i * 7 + 3) % fields.len()].clone()]);
        data.push(vec![String::new(), field.clone(), String::new()]);
    }
    let mut expected = String::new();
    for row in data.iter() {
        expected.push_str(&expected_record(row));
    }
    assert_eq!(String::from_utf8(write_csv(&data)).unwrap(), expected);
    for row in data.iter() {
        let alone = vec![row.clone()];
        assert_eq!(String::from_utf8(write_csv(&alone)).unwrap(), expected_record(row));
    }
}

#[test]
fn the_headers_name_the_columns() {
    assert_eq!(customer_header(), vec!["customer_id", "customer_name", "email"]);
    assert_eq!(
        order_header(),
        vec!["order_id", "customer_id", "product_name", "quantity", "order_date", "status"]
    );
}

#[test]
fn a_customer_becomes_a_row_of_three_fields() {
    let customer = Customer {
        id: 12,
        name: "Alice".to_string(),
        email: "alice@example.com".to_string(),
    };
    assert_eq!(customer_row(&customer), vec!["12", "Alice", "alice@example.com"]);
}

#[test]
fn an_order_becomes_a_row_of_six_fields() {
    let order = Order {
        id: 1005,
        customer_id: 40,
        product_name: "Product C".to_string(),
        quantity: 10,
        order_date: "2021-07-29".to_string(),
        status: "Shipped".to_string(),
    };
    assert_eq!(
        order_row(&order),
        vec!["1005", "40", "Product C", "10", "2021-07-29", "Shipped"]
    );
}

#[test]
fn the_tables_begin_with_their_headers() {
    let customers = vec![
        Customer { id: 1, name: "A".to_string(), email: "a@example.com".to_string() },
        Customer { id: 2, name: "B".to_string(), email: "b@example.com".to_string() },
    ];
    assert_eq!(
        customer_rows(&customers),
        table(&[
            &["customer_id", "customer_name", "email"],
            &["1", "A", "a@example.com"],
            &["2", "B", "b@example.com"],
        ])
    );
    let orders = vec![Order {
        id: 1,
        customer_id: 2,
        product_name: "Product A".to_string(),
        quantity: 3,
        order_date: "2020-01-31".to_string(),
        status: "Pending".to_string(),
    }];
    assert_eq!(
        order_rows(&orders),
        table(&[
            &["order_id", "customer_id", "product_name", "quantity", "order_date", "status"],
            &["1", "2", "Product A", "3", "2020-01-31", "Pending"],
        ])
    );
    let none: Vec<Customer> = Vec::new();
    assert_eq!(customer_rows(&none), table(&[&["customer_id", "customer_name", "email"]]));
}

#[test]
fn the_tables_as_csv() {
    let customers = vec![
        Customer { id: 1, name: "A".to_string(), email: "a@example.com".to_string() },
        Customer { id: 2, name: "B, Jr.".to_string(), email: "b@example.com".to_string() },
    ];
    assert_eq!(
        String::from_utf8(customers_csv(&customers)).unwrap(),
        "customer_id,customer_name,email\n1,A,a@example.com\n2,\"B, Jr.\",b@example.com\n"
    );
    let orders = vec![Order {
        id: 1,
        customer_id: 2,
        product_name: "Product A".to_string(),
        quantity: 3,
        order_date: "2020-01-31".to_string(),
        status: "Pending".to_string(),
    }];
    assert_eq!(
        String::from_utf8(orders_csv(&orders)).unwrap(),
        "order_id,customer_id,product_name,quantity,order_date,status\n\
         1,2,Product A,3,2020-01-31,Pending\n"
    );
}

#[test]
fn a_status_with_a_quote_survives_the_round_trip() {
    let today = Today::from_day_number(738_000).unwrap();
    let statuses = vec!["On \"hold\"", "Sent, twice"];
    let mut source = RandomSource::from_seed(31);
    let customers = generate_customers_with(&mut source, 3);
    let orders =
        generate_orders_with(&mut source, &today, &customers, 2, 2, &statuses, false).unwrap();
    let rows = order_rows(&orders);
    assert_eq!(read_back(&orders_csv(&orders)), rows);
    assert_eq!(rows[1][5], "On \"hold\"");
    assert_eq!(rows[2][5], "Sent, twice");
}

#[test]
fn default_run_has_the_expected_line_counts() {
    let customers = generate_customers(10);
    let statuses = vec!["Pending", "Processing", "Shipped", "Delivered"];
    let orders = generate_orders(&customers, 5, 10, &statuses, true).unwrap();
    let customer_text = String::from_utf8(customers_csv(&customers)).unwrap();
    let order_text = String::from_utf8(orders_csv(&orders)).unwrap();
    assert_eq!(customer_text.lines().count(), 11);
    let order_lines = order_text.lines().count();
    assert!(order_lines >= 51 && order_lines <= 101);
    assert_eq!(customer_text.lines().next().unwrap(), "customer_id,customer_name,email");
    assert_eq!(
        order_text.lines().next().unwrap(),
        "order_id,customer_id,product_name,quantity,order_date,status"
    );
}
