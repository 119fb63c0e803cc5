//! What holds of every generated data set.

use crate::customers::email_domain;
use crate::customers::ids_sequential;
use crate::customers::is_generated_customer;
use crate::customers::is_generated_customers;
use crate::customers::is_generated_email;
use crate::customers::CustomerView;
use crate::dates::has_four_digit_year;
use crate::dates::has_iso_form;
use crate::dates::MAX_DAYS_BACK;
use crate::orders::batch_fits;
use crate::orders::batches_fit;
use crate::orders::is_generated_orders;
use crate::orders::join_batches;
use crate::orders::order_fits;
use crate::orders::order_ids_contiguous;
use crate::orders::product_catalog;
use crate::orders::OrderView;
use crate::orders::MAX_QUANTITY;
use crate::orders::MIN_QUANTITY;
use vstd::prelude::*;

verus! {

/// The place in the joined sequence at which the batch `c` begins.
pub open spec fn batch_offset(batches: Seq<Seq<OrderView>>, c: int) -> int {
    join_batches(batches.take(c)).len() as int
}

/// The batch `c` stands in the joined sequence as a whole, from its offset
/// on.
pub proof fn join_batches_index(batches: Seq<Seq<OrderView>>, c: int, k: int)
    requires
        0 <= c < batches.len(),
        0 <= k < batches[c].len(),
    ensures
        0 <= batch_offset(batches, c),
        batch_offset(batches, c) + k < join_batches(batches).len(),
        join_batches(batches)[batch_offset(batches, c) + k] == batches[c][k],
    decreases batches.len(),
{
    let front = batches.drop_last();
    if c == batches.len() - 1 {
        assert(batches.take(c) =~= front);
    } else {
        join_batches_index(front, c, k);
        assert(front.take(c) =~= batches.take(c));
    }
}

/// Every order of the joined sequence stands in one of the batches.
pub proof fn join_batches_locate(batches: Seq<Seq<OrderView>>, i: int) -> (place: (int, int))
    requires
        0 <= i < join_batches(batches).len(),
    ensures
        0 <= place.0 < batches.len(),
        0 <= place.1 < batches[place.0].len(),
        join_batches(batches)[i] == batches[place.0][place.1],
        i == batch_offset(batches, place.0) + place.1,
    decreases batches.len(),
{
    let front = batches.drop_last();
    let joined_front = join_batches(front);
    if i < joined_front.len() {
        let place = join_batches_locate(front, i);
        assert(front.take(place.0) =~= batches.take(place.0));
        place
    } else {
        let c = batches.len() - 1;
        assert(batches.take(c) =~= front);
        (c, i - joined_front.len())
    }
}

/// Batches of between `min_orders` and `max_orders` orders each hold, taken
/// together, between `batches.len() * min_orders` and
/// `batches.len() * max_orders` orders.
pub proof fn join_batches_len(batches: Seq<Seq<OrderView>>, min_orders: nat, max_orders: nat)
    requires
        forall|c: int|
            0 <= c < batches.len() ==> min_orders <= (#[trigger] batches[c]).len() <= max_orders,
    ensures
        batches.len() * min_orders <= join_batches(batches).len() <= batches.len() * max_orders,
    decreases batches.len(),
{
    if batches.len() > 0 {
        let front = batches.drop_last();
        assert forall|c: int| 0 <= c < front.len() implies min_orders <= (
        #[trigger] front[c]).len() <= max_orders by {
            assert(front[c] == batches[c]);
        }
        join_batches_len(front, min_orders, max_orders);
        let n = front.len();
        assert((n + 1) * min_orders == n * min_orders + min_orders) by (nonlinear_arith);
        assert((n + 1) * max_orders == n * max_orders + max_orders) by (nonlinear_arith);
    } else {
        assert(batches.len() * min_orders == 0) by (nonlinear_arith)
            requires
                batches.len() == 0,
        ;
        assert(batches.len() * max_orders == 0) by (nonlinear_arith)
            requires
                batches.len() == 0,
        ;
    }
}

/// Generated customers carry the ids 1 to their number, in order.
pub proof fn generated_customers_are_numbered(customers: Seq<CustomerView>, count: nat)
    requires
        is_generated_customers(customers, count),
    ensures
        customers.len() == count,
        ids_sequential(customers),
{
    assert forall|i: int| 0 <= i < customers.len() implies (#[trigger] customers[i]).id == i
        + 1 by {
        assert(is_generated_customer(customers[i], i));
    }
}

/// A generated email ends with the domain, and something stands before it.
pub proof fn generated_email_ends_with_domain(email: Seq<char>)
    requires
        is_generated_email(email),
    ensures
        email.len() > email_domain().len(),
        email.subrange(email.len() - email_domain().len(), email.len() as int) == email_domain(),
{
    let local = choose|local: Seq<char>|
        #![auto]
        local.len() == crate::customers::EMAIL_LOCAL_LENGTH && crate::random::all_alphanumeric(
            local,
        ) && email == local + email_domain();
    assert(email.subrange(local.len() as int, email.len() as int) =~= email_domain());
}

/// A generated customer has a name that is not empty, and an email that ends
/// with the domain.
pub proof fn generated_customer_is_named(customer: CustomerView, index: int)
    requires
        is_generated_customer(customer, index),
    ensures
        customer.name.len() > 0,
        customer.email.len() > email_domain().len(),
        customer.email.subrange(
            customer.email.len() - email_domain().len(),
            customer.email.len() as int,
        ) == email_domain(),
{
    generated_email_ends_with_domain(customer.email);
}

/// For `customers.len()` customers with between `min_orders` and
/// `max_orders` orders each, the number of orders lies between
/// `customers.len() * min_orders` and `customers.len() * max_orders`.
pub proof fn total_orders_bounded(
    orders: Seq<OrderView>,
    customers: Seq<CustomerView>,
    min_orders: nat,
    max_orders: nat,
    statuses: Seq<Seq<char>>,
    random_status: bool,
    today: int,
)
    requires
        is_generated_orders(
            orders,
            customers,
            min_orders,
            max_orders,
            statuses,
            random_status,
            today,
        ),
    ensures
        customers.len() * min_orders <= orders.len() <= customers.len() * max_orders,
{
    let batches = choose|batches: Seq<Seq<OrderView>>|
        #![auto]
        batches_fit(batches, customers, min_orders, max_orders, statuses, random_status, today)
            && orders == join_batches(batches);
    join_batches_len(batches, min_orders, max_orders);
}

/// Order ids that run through from 1 have no gap and no repeat: the id at
/// each place is the place's number, so every number from 1 to the number of
/// orders is the id of exactly one order.
pub proof fn order_ids_have_no_gap_or_repeat(orders: Seq<OrderView>)
    requires
        order_ids_contiguous(orders),
    ensures
        forall|i: int, j: int|
            0 <= i < orders.len() && 0 <= j < orders.len() && i != j ==> (#[trigger] orders[i]).id
                != (#[trigger] orders[j]).id,
        forall|id: int|
            1 <= id <= orders.len() ==> (#[trigger] orders[id - 1]).id == id,
        forall|i: int| 0 <= i < orders.len() ==> 1 <= (#[trigger] orders[i]).id <= orders.len(),
{
}

/// The order at the place `k` of the batch `c` is fit for that customer and
/// that place.
pub proof fn batch_order_fits(
    batches: Seq<Seq<OrderView>>,
    customers: Seq<CustomerView>,
    min_orders: nat,
    max_orders: nat,
    statuses: Seq<Seq<char>>,
    random_status: bool,
    today: int,
    c: int,
    k: int,
)
    requires
        batches_fit(batches, customers, min_orders, max_orders, statuses, random_status, today),
        0 <= c < batches.len(),
        0 <= k < batches[c].len(),
    ensures
        order_fits(batches[c][k], customers[c].id, k, statuses, random_status, today),
{
    assert(batch_fits(
        batches[c],
        customers[c].id,
        min_orders,
        max_orders,
        statuses,
        random_status,
        today,
    ));
}

/// Every generated order fits its place: it stands at some place of the
/// batch of some customer, and is fit for that customer and that place.
pub proof fn generated_order_fits(
    orders: Seq<OrderView>,
    customers: Seq<CustomerView>,
    min_orders: nat,
    max_orders: nat,
    statuses: Seq<Seq<char>>,
    random_status: bool,
    today: int,
    i: int,
) -> (place: (int, int))
    requires
        is_generated_orders(
            orders,
            customers,
            min_orders,
            max_orders,
            statuses,
            random_status,
            today,
        ),
        0 <= i < orders.len(),
    ensures
        0 <= place.0 < customers.len(),
        0 <= place.1,
        order_fits(orders[i], customers[place.0].id, place.1, statuses, random_status, today),
{
    let batches = choose|batches: Seq<Seq<OrderView>>|
        #![auto]
        batches_fit(batches, customers, min_orders, max_orders, statuses, random_status, today)
            && orders == join_batches(batches);
    let place = join_batches_locate(batches, i);
    batch_order_fits(
        batches,
        customers,
        min_orders,
        max_orders,
        statuses,
        random_status,
        today,
        place.0,
        place.1,
    );
    place
}

/// Where the customers carry the ids 1 to their number, every order's
/// customer id is one of them.
pub proof fn customer_ids_in_range(
    orders: Seq<OrderView>,
    customers: Seq<CustomerView>,
    min_orders: nat,
    max_orders: nat,
    statuses: Seq<Seq<char>>,
    random_status: bool,
    today: int,
)
    requires
        ids_sequential(customers),
        is_generated_orders(
            orders,
            customers,
            min_orders,
            max_orders,
            statuses,
            random_status,
            today,
        ),
    ensures
        forall|i: int|
            0 <= i < orders.len() ==> 1 <= (#[trigger] orders[i]).customer_id <= customers.len(),
{
    assert forall|i: int| 0 <= i < orders.len() implies 1 <= (#[trigger] orders[i]).customer_id
        <= customers.len() by {
        let place = generated_order_fits(
            orders,
            customers,
            min_orders,
            max_orders,
            statuses,
            random_status,
            today,
            i,
        );
    }
}

/// Every order is an order of one of the customers.
pub proof fn orders_belong_to_customers(
    orders: Seq<OrderView>,
    customers: Seq<CustomerView>,
    min_orders: nat,
    max_orders: nat,
    statuses: Seq<Seq<char>>,
    random_status: bool,
    today: int,
)
    requires
        is_generated_orders(
            orders,
            customers,
            min_orders,
            max_orders,
            statuses,
            random_status,
            today,
        ),
    ensures
        forall|i: int|
            0 <= i < orders.len() ==> exists|c: int|
                0 <= c < customers.len() && (#[trigger] orders[i]).customer_id == (
                #[trigger] customers[c]).id,
{
    assert forall|i: int| 0 <= i < orders.len() implies exists|c: int|
        0 <= c < customers.len() && (#[trigger] orders[i]).customer_id == (
        #[trigger] customers[c]).id by {
        let place = generated_order_fits(
            orders,
            customers,
            min_orders,
            max_orders,
            statuses,
            random_status,
            today,
            i,
        );
        assert(orders[i].customer_id == customers[place.0].id);
    }
}

/// Every order's quantity lies between the least and the greatest quantity.
pub proof fn quantities_in_range(
    orders: Seq<OrderView>,
    customers: Seq<CustomerView>,
    min_orders: nat,
    max_orders: nat,
    statuses: Seq<Seq<char>>,
    random_status: bool,
    today: int,
)
    requires
        is_generated_orders(
            orders,
            customers,
            min_orders,
            max_orders,
            statuses,
            random_status,
            today,
        ),
    ensures
        forall|i: int|
            0 <= i < orders.len() ==> MIN_QUANTITY <= (#[trigger] orders[i]).quantity
                <= MAX_QUANTITY,
{
    assert forall|i: int| 0 <= i < orders.len() implies MIN_QUANTITY <= (
    #[trigger] orders[i]).quantity <= MAX_QUANTITY by {
        let place = generated_order_fits(
            orders,
            customers,
            min_orders,
            max_orders,
            statuses,
            random_status,
            today,
            i,
        );
    }
}

/// Every order's product is one of the catalog.
pub proof fn products_in_catalog(
    orders: Seq<OrderView>,
    customers: Seq<CustomerView>,
    min_orders: nat,
    max_orders: nat,
    statuses: Seq<Seq<char>>,
    random_status: bool,
    today: int,
)
    requires
        is_generated_orders(
            orders,
            customers,
            min_orders,
            max_orders,
            statuses,
            random_status,
            today,
        ),
    ensures
        forall|i: int|
            0 <= i < orders.len() ==> product_catalog().contains(
                (#[trigger] orders[i]).product_name,
            ),
{
    assert forall|i: int| 0 <= i < orders.len() implies product_catalog().contains(
        (#[trigger] orders[i]).product_name,
    ) by {
        let place = generated_order_fits(
            orders,
            customers,
            min_orders,
            max_orders,
            statuses,
            random_status,
            today,
            i,
        );
    }
}

/// Where the whole year before `today` lies in the years from 1000 to 9999,
/// every order's date has the form `YYYY-MM-DD`.
pub proof fn order_dates_have_iso_form(
    orders: Seq<OrderView>,
    customers: Seq<CustomerView>,
    min_orders: nat,
    max_orders: nat,
    statuses: Seq<Seq<char>>,
    random_status: bool,
    today: int,
)
    requires
        is_generated_orders(
            orders,
            customers,
            min_orders,
            max_orders,
            statuses,
            random_status,
            today,
        ),
        has_four_digit_year(today - MAX_DAYS_BACK),
        has_four_digit_year(today),
    ensures
        forall|i: int| 0 <= i < orders.len() ==> has_iso_form((#[trigger] orders[i]).order_date),
{
    assert forall|i: int| 0 <= i < orders.len() implies has_iso_form(
        (#[trigger] orders[i]).order_date,
    ) by {
        let place = generated_order_fits(
            orders,
            customers,
            min_orders,
            max_orders,
            statuses,
            random_status,
            today,
            i,
        );
    }
}

/// In either mode, every order's status is a member of the vocabulary.
pub proof fn statuses_in_vocabulary(
    orders: Seq<OrderView>,
    customers: Seq<CustomerView>,
    min_orders: nat,
    max_orders: nat,
    statuses: Seq<Seq<char>>,
    random_status: bool,
    today: int,
)
    requires
        is_generated_orders(
            orders,
            customers,
            min_orders,
            max_orders,
            statuses,
            random_status,
            today,
        ),
    ensures
        forall|i: int| 0 <= i < orders.len() ==> statuses.contains((#[trigger] orders[i]).status),
{
    assert forall|i: int| 0 <= i < orders.len() implies statuses.contains(
        (#[trigger] orders[i]).status,
    ) by {
        let place = generated_order_fits(
            orders,
            customers,
            min_orders,
            max_orders,
            statuses,
            random_status,
            today,
            i,
        );
        if !random_status {
            let n = statuses.len() as int;
            assert(0 <= place.1 % n < n) by (nonlinear_arith)
                requires
                    n > 0,
                    place.1 >= 0,
            ;
        }
    }
}

/// The order `made` stands at the place `i` of `orders`, for the customer
/// `customer_id` and with the status `status`.
pub open spec fn cycles_at(
    orders: Seq<OrderView>,
    made: OrderView,
    i: int,
    customer_id: nat,
    status: Seq<char>,
) -> bool {
    &&& 0 <= i < orders.len()
    &&& orders[i] == made
    &&& made.customer_id == customer_id
    &&& made.status == status
}

/// Without random statuses, the orders fall into one batch for each
/// customer, in the customers' order, and the order at the place `k` of a
/// batch has the status at the place `k` modulo the vocabulary's length.
pub proof fn statuses_cycle_within_batches(
    orders: Seq<OrderView>,
    customers: Seq<CustomerView>,
    min_orders: nat,
    max_orders: nat,
    statuses: Seq<Seq<char>>,
    today: int,
) -> (batches: Seq<Seq<OrderView>>)
    requires
        is_generated_orders(orders, customers, min_orders, max_orders, statuses, false, today),
    ensures
        batches.len() == customers.len(),
        orders == join_batches(batches),
        statuses.len() > 0 || orders.len() == 0,
        forall|c: int, k: int|
            0 <= c < batches.len() && 0 <= k < batches[c].len() ==> cycles_at(
                orders,
                #[trigger] batches[c][k],
                batch_offset(batches, c) + k,
                customers[c].id,
                statuses[k % (statuses.len() as int)],
            ),
{
    let batches = choose|batches: Seq<Seq<OrderView>>|
        #![auto]
        batches_fit(batches, customers, min_orders, max_orders, statuses, false, today) && orders
            == join_batches(batches);
    assert forall|c: int, k: int|
        0 <= c < batches.len() && 0 <= k < batches[c].len() implies cycles_at(
        orders,
        #[trigger] batches[c][k],
        batch_offset(batches, c) + k,
        customers[c].id,
        statuses[k % (statuses.len() as int)],
    ) by {
        join_batches_index(batches, c, k);
        batch_order_fits(batches, customers, min_orders, max_orders, statuses, false, today, c, k);
    }
    if orders.len() > 0 {
        let place = generated_order_fits(
            orders,
            customers,
            min_orders,
            max_orders,
            statuses,
            false,
            today,
            0,
        );
    }
    batches
}

} // verus!
