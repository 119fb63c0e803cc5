//! Customers and orders as tables of text fields, and as CSV.

use crate::csv_table::csv_text;
use crate::csv_table::record_texts;
use crate::csv_table::table_texts;
use crate::csv_table::write_csv;
use crate::customers::customer_views;
use crate::customers::Customer;
use crate::customers::CustomerView;
use crate::orders::order_views;
use crate::orders::Order;
use crate::orders::OrderView;
use crate::text::decimal_string;
use crate::text::decimal_text;
use vstd::prelude::*;
use vstd::utf8::encode_utf8;
use vstd::string::StringExecFns;

verus! {

/// The header of the customer table.
pub open spec fn customer_header_texts() -> Seq<Seq<char>> {
    seq!["customer_id"@, "customer_name"@, "email"@]
}

/// The header of the order table.
pub open spec fn order_header_texts() -> Seq<Seq<char>> {
    seq![
        "order_id"@,
        "customer_id"@,
        "product_name"@,
        "quantity"@,
        "order_date"@,
        "status"@,
    ]
}

/// The fields of a customer: the id in decimal, the name, the email.
pub open spec fn customer_record(customer: CustomerView) -> Seq<Seq<char>> {
    seq![decimal_text(customer.id), customer.name, customer.email]
}

/// The fields of an order: id, customer id, product name, quantity, date
/// and status, the numbers in decimal.
pub open spec fn order_record(order: OrderView) -> Seq<Seq<char>> {
    seq![
        decimal_text(order.id),
        decimal_text(order.customer_id),
        order.product_name,
        decimal_text(order.quantity),
        order.order_date,
        order.status,
    ]
}

/// The customer table: the header, then one record for each customer.
pub open spec fn customer_table(customers: Seq<CustomerView>) -> Seq<Seq<Seq<char>>> {
    Seq::new(
        customers.len() + 1,
        |i: int|
            if i == 0 {
                customer_header_texts()
            } else {
                customer_record(customers[i - 1])
            },
    )
}

/// The order table: the header, then one record for each order.
pub open spec fn order_table(orders: Seq<OrderView>) -> Seq<Seq<Seq<char>>> {
    Seq::new(
        orders.len() + 1,
        |i: int|
            if i == 0 {
                order_header_texts()
            } else {
                order_record(orders[i - 1])
            },
    )
}

/// The header of the customer table.
pub fn customer_header() -> (row: Vec<String>)
    ensures
        record_texts(row@) == customer_header_texts(),
{
    let row = vec![
        String::from_str("customer_id"),
        String::from_str("customer_name"),
        String::from_str("email"),
    ];
    assert(record_texts(row@) =~= customer_header_texts());
    row
}

/// The header of the order table.
pub fn order_header() -> (row: Vec<String>)
    ensures
        record_texts(row@) == order_header_texts(),
{
    let row = vec![
        String::from_str("order_id"),
        String::from_str("customer_id"),
        String::from_str("product_name"),
        String::from_str("quantity"),
        String::from_str("order_date"),
        String::from_str("status"),
    ];
    assert(record_texts(row@) =~= order_header_texts());
    row
}

/// The fields of one customer.
pub fn customer_row(customer: &Customer) -> (row: Vec<String>)
    ensures
        record_texts(row@) == customer_record(customer@),
{
    let row = vec![decimal_string(customer.id), customer.name.clone(), customer.email.clone()];
    assert(record_texts(row@) =~= customer_record(customer@));
    row
}

/// The fields of one order.
pub fn order_row(order: &Order) -> (row: Vec<String>)
    ensures
        record_texts(row@) == order_record(order@),
{
    let row = vec![
        decimal_string(order.id),
        decimal_string(order.customer_id),
        order.product_name.clone(),
        decimal_string(order.quantity),
        order.order_date.clone(),
        order.status.clone(),
    ];
    assert(record_texts(row@) =~= order_record(order@));
    row
}

/// The customer table: the header, then the customers in order.
pub fn customer_rows(customers: &[Customer]) -> (rows: Vec<Vec<String>>)
    ensures
        table_texts(rows@) == customer_table(customer_views(customers@)),
{
    let ghost views = customer_views(customers@);
    let mut rows: Vec<Vec<String>> = Vec::new();
    rows.push(customer_header());
    let mut i: usize = 0;
    while i < customers.len()
        invariant
            i <= customers@.len(),
            views == customer_views(customers@),
            table_texts(rows@) =~= customer_table(views.take(i as int)),
        decreases customers@.len() - i,
    {
        let ghost before = table_texts(rows@);
        rows.push(customer_row(&customers[i]));
        proof {
            assert(table_texts(rows@) =~= before.push(customer_record(views[i as int])));
            assert(views.take(i + 1)[i as int] == views[i as int]);
            assert(before.push(customer_record(views[i as int])) =~= customer_table(
                views.take(i + 1),
            )) by {
                assert forall|j: int| 0 <= j <= i + 1 implies before.push(
                    customer_record(views[i as int]),
                )[j] == #[trigger] customer_table(views.take(i + 1))[j] by {
                    if 0 < j && j <= i {
                        assert(views.take(i + 1)[j - 1] == views.take(i as int)[j - 1]);
                    }
                }
            }
        }
        i += 1;
    }
    proof {
        assert(views.take(i as int) =~= views);
    }
    rows
}

/// The order table: the header, then the orders in order.
pub fn order_rows(orders: &[Order]) -> (rows: Vec<Vec<String>>)
    ensures
        table_texts(rows@) == order_table(order_views(orders@)),
{
    let ghost views = order_views(orders@);
    let mut rows: Vec<Vec<String>> = Vec::new();
    rows.push(order_header());
    let mut i: usize = 0;
    while i < orders.len()
        invariant
            i <= orders@.len(),
            views == order_views(orders@),
            table_texts(rows@) =~= order_table(views.take(i as int)),
        decreases orders@.len() - i,
    {
        let ghost before = table_texts(rows@);
        rows.push(order_row(&orders[i]));
        proof {
            assert(table_texts(rows@) =~= before.push(order_record(views[i as int])));
            assert(views.take(i + 1)[i as int] == views[i as int]);
            assert(before.push(order_record(views[i as int])) =~= order_table(
                views.take(i + 1),
            )) by {
                assert forall|j: int| 0 <= j <= i + 1 implies before.push(
                    order_record(views[i as int]),
                )[j] == #[trigger] order_table(views.take(i + 1))[j] by {
                    if 0 < j && j <= i {
                        assert(views.take(i + 1)[j - 1] == views.take(i as int)[j - 1]);
                    }
                }
            }
        }
        i += 1;
    }
    proof {
        assert(views.take(i as int) =~= views);
    }
    rows
}

/// The customer table as CSV, in UTF-8.
pub fn customers_csv(customers: &[Customer]) -> (bytes: Vec<u8>)
    ensures
        bytes@ == encode_utf8(csv_text(customer_table(customer_views(customers@)))),
{
    let rows = customer_rows(customers);
    write_csv(rows.as_slice())
}

/// The order table as CSV, in UTF-8.
pub fn orders_csv(orders: &[Order]) -> (bytes: Vec<u8>)
    ensures
        bytes@ == encode_utf8(csv_text(order_table(order_views(orders@)))),
{
    let rows = order_rows(orders);
    write_csv(rows.as_slice())
}

} // verus!
