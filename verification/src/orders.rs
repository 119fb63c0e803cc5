//! Order records and their generator.

use crate::customers::customer_views;
use crate::customers::Customer;
use crate::customers::CustomerView;
use crate::dates::has_four_digit_year;
use crate::dates::has_iso_form;
use crate::dates::iso_date_text;
use crate::dates::Today;
use crate::dates::EPOCH_DAY;
use crate::dates::LAST_DAY;
use crate::dates::MAX_DAYS_BACK;
use crate::facts::order_dates_have_iso_form;
use crate::facts::orders_belong_to_customers;
use crate::facts::products_in_catalog;
use crate::facts::quantities_in_range;
use crate::facts::statuses_in_vocabulary;
use crate::random::RandomSource;
use vstd::prelude::*;
use vstd::string::StringExecFns;

verus! {

/// The least quantity of an order.
pub const MIN_QUANTITY: usize = 1;

/// The greatest quantity of an order.
pub const MAX_QUANTITY: usize = 10;

/// An order of one customer.
#[derive(Debug)]
pub struct Order {
    pub id: usize,
    pub customer_id: usize,
    pub product_name: String,
    pub quantity: usize,
    pub order_date: String,
    pub status: String,
}

/// An order as a mathematical value.
pub struct OrderView {
    pub id: nat,
    pub customer_id: nat,
    pub product_name: Seq<char>,
    pub quantity: nat,
    pub order_date: Seq<char>,
    pub status: Seq<char>,
}

impl View for Order {
    type V = OrderView;

    open spec fn view(&self) -> OrderView {
        OrderView {
            id: self.id as nat,
            customer_id: self.customer_id as nat,
            product_name: self.product_name@,
            quantity: self.quantity as nat,
            order_date: self.order_date@,
            status: self.status@,
        }
    }
}

/// Why no orders were generated.
#[derive(Debug, PartialEq, Eq, Clone, Copy)]
pub enum GenerateError {
    /// The status vocabulary is empty.
    InvalidArgument,
}

/// The orders of a vector, each as a mathematical value.
pub open spec fn order_views(orders: Seq<Order>) -> Seq<OrderView> {
    Seq::new(orders.len(), |i: int| orders[i]@)
}

/// The texts of a status vocabulary.
pub open spec fn status_texts(statuses: Seq<&str>) -> Seq<Seq<char>> {
    Seq::new(statuses.len(), |i: int| statuses[i]@)
}

/// The product names that an order may carry.
pub open spec fn product_catalog() -> Seq<Seq<char>> {
    seq!["Product A"@, "Product B"@, "Product C"@, "Product D"@]
}

/// `text` is the ISO date of a day at most a year before `today`, or of
/// `today` itself; where that day lies in a year from 1000 to 9999, the text
/// has the form `YYYY-MM-DD`.
pub open spec fn is_order_date(text: Seq<char>, today: int) -> bool {
    exists|back: int|
        0 <= back <= MAX_DAYS_BACK && text == #[trigger] iso_date_text(today - back) && (
        has_four_digit_year(today - back) ==> has_iso_form(text))
}

/// `status` is what the chosen mode allows at the place `position` of a
/// customer's batch: any member of the vocabulary in random mode, else the
/// member that the place selects, the vocabulary taken round and round.
pub open spec fn status_fits(
    status: Seq<char>,
    position: int,
    statuses: Seq<Seq<char>>,
    random_status: bool,
) -> bool {
    if random_status {
        statuses.contains(status)
    } else {
        statuses.len() > 0 && status == statuses[position % (statuses.len() as int)]
    }
}

/// `order` is what the generator may make for a customer at the place
/// `position` of that customer's batch. The id is not part of it.
pub open spec fn order_fits(
    order: OrderView,
    customer_id: nat,
    position: int,
    statuses: Seq<Seq<char>>,
    random_status: bool,
    today: int,
) -> bool {
    &&& order.customer_id == customer_id
    &&& product_catalog().contains(order.product_name)
    &&& MIN_QUANTITY <= order.quantity <= MAX_QUANTITY
    &&& is_order_date(order.order_date, today)
    &&& status_fits(order.status, position, statuses, random_status)
}

/// `batch` is what the generator may make for one customer: between
/// `min_orders` and `max_orders` orders, each fit for its place.
pub open spec fn batch_fits(
    batch: Seq<OrderView>,
    customer_id: nat,
    min_orders: nat,
    max_orders: nat,
    statuses: Seq<Seq<char>>,
    random_status: bool,
    today: int,
) -> bool {
    &&& min_orders <= batch.len() <= max_orders
    &&& forall|k: int|
        0 <= k < batch.len() ==> order_fits(
            #[trigger] batch[k],
            customer_id,
            k,
            statuses,
            random_status,
            today,
        )
}

/// The batches one after another, as one sequence.
pub open spec fn join_batches(batches: Seq<Seq<OrderView>>) -> Seq<OrderView>
    decreases batches.len(),
{
    if batches.len() == 0 {
        Seq::empty()
    } else {
        join_batches(batches.drop_last()) + batches.last()
    }
}

/// There is one batch for each customer, in the customers' order, and each
/// batch is fit for its customer.
pub open spec fn batches_fit(
    batches: Seq<Seq<OrderView>>,
    customers: Seq<CustomerView>,
    min_orders: nat,
    max_orders: nat,
    statuses: Seq<Seq<char>>,
    random_status: bool,
    today: int,
) -> bool {
    &&& batches.len() == customers.len()
    &&& forall|c: int|
        0 <= c < batches.len() ==> batch_fits(
            #[trigger] batches[c],
            customers[c].id,
            min_orders,
            max_orders,
            statuses,
            random_status,
            today,
        )
}

/// The ids of `orders` are 1, 2, 3 and so on, in order.
pub open spec fn order_ids_contiguous(orders: Seq<OrderView>) -> bool {
    forall|i: int| 0 <= i < orders.len() ==> (#[trigger] orders[i]).id == i + 1
}

/// `orders` is a result of generating orders for `customers` on the day
/// `today`: the customers' batches one after another, numbered through from
/// 1.
pub open spec fn is_generated_orders(
    orders: Seq<OrderView>,
    customers: Seq<CustomerView>,
    min_orders: nat,
    max_orders: nat,
    statuses: Seq<Seq<char>>,
    random_status: bool,
    today: int,
) -> bool {
    &&& order_ids_contiguous(orders)
    &&& exists|batches: Seq<Seq<OrderView>>|
        #![auto]
        batches_fit(batches, customers, min_orders, max_orders, statuses, random_status, today)
            && orders == join_batches(batches)
}

/// `order` under the id `id`.
pub open spec fn with_id(order: OrderView, id: nat) -> OrderView {
    OrderView { id, ..order }
}

/// The four product names.
pub fn products() -> (catalog: Vec<&'static str>)
    ensures
        catalog@.len() == 4,
        forall|i: int| 0 <= i < 4 ==> (#[trigger] catalog@[i])@ == product_catalog()[i],
{
    vec!["Product A", "Product B", "Product C", "Product D"]
}

/// The status of the order at the place `position` of a batch.
pub fn pick_status(
    source: &mut RandomSource,
    statuses: &[&str],
    position: usize,
    random_status: bool,
) -> (status: String)
    requires
        statuses@.len() > 0,
    ensures
        status_fits(status@, position as int, status_texts(statuses@), random_status),
{
    if random_status {
        match source.pick(statuses) {
            Some(picked) => {
                proof {
                    let i = choose|i: int| 0 <= i < statuses@.len() && statuses@[i] == *picked;
                    assert(status_texts(statuses@)[i] == picked@);
                }
                String::from_str(*picked)
            },
            None => unreached(),
        }
    } else {
        let index = position % statuses.len();
        assert(status_texts(statuses@)[index as int] == statuses@[index as int]@);
        String::from_str(statuses[index])
    }
}

/// One order for the given customer, at the place `position` of the
/// customer's batch. It has no number yet: its id is 0 until
/// [`push_numbered`] appends it.
pub fn generate_order(
    source: &mut RandomSource,
    today: &Today,
    customer_id: usize,
    position: usize,
    statuses: &[&str],
    random_status: bool,
) -> (order: Order)
    requires
        statuses@.len() > 0,
    ensures
        order.id == 0,
        order_fits(
            order@,
            customer_id as nat,
            position as int,
            status_texts(statuses@),
            random_status,
            today.day_number(),
        ),
{
    let status = pick_status(source, statuses, position, random_status);
    let back = source.in_range(0, MAX_DAYS_BACK);
    let order_date = today.date_text_before(back);
    let catalog = products();
    let product_name = match source.pick(catalog.as_slice()) {
        Some(picked) => {
            proof {
                let i = choose|i: int| 0 <= i < catalog@.len() && catalog@[i] == *picked;
                assert(product_catalog()[i] == picked@);
            }
            String::from_str(*picked)
        },
        None => unreached(),
    };
    let quantity = source.in_range(MIN_QUANTITY, MAX_QUANTITY);
    Order { id: 0, customer_id, product_name, quantity, order_date, status }
}

/// Appends `order` under the next id: the number of orders that the vector
/// then holds. The id is taken after the push, for that number always fits a
/// `usize`, and one more than the number before need not.
pub fn push_numbered(orders: &mut Vec<Order>, order: Order)
    ensures
        order_views(final(orders)@) == order_views(old(orders)@).push(
            with_id(order@, old(orders)@.len() + 1),
        ),
{
    orders.push(order);
    let id = orders.len();
    orders[id - 1].id = id;
    assert(order_views(orders@) =~= order_views(old(orders)@).push(
        with_id(order@, old(orders)@.len() + 1),
    ));
}

/// The orders of all `customers`, drawn from `source` on the day `today`.
///
/// Each customer, in order, gets between `min_orders` and `max_orders`
/// orders; the ids run through from 1. An empty vocabulary is refused.
pub fn generate_orders_with(
    source: &mut RandomSource,
    today: &Today,
    customers: &[Customer],
    min_orders: usize,
    max_orders: usize,
    statuses: &[&str],
    random_status: bool,
) -> (result: Result<Vec<Order>, GenerateError>)
    requires
        min_orders <= max_orders,
    ensures
        result is Err <==> statuses@.len() == 0,
        result matches Err(error) ==> error == GenerateError::InvalidArgument,
        result matches Ok(orders) ==> is_generated_orders(
            order_views(orders@),
            customer_views(customers@),
            min_orders as nat,
            max_orders as nat,
            status_texts(statuses@),
            random_status,
            today.day_number(),
        ),
        result matches Ok(orders) ==> customers@.len() * min_orders <= orders@.len()
            <= customers@.len() * max_orders,
        result matches Ok(orders) ==> forall|i: int|
            0 <= i < orders@.len() ==> (#[trigger] orders@[i]).id == i + 1,
        result matches Ok(orders) ==> forall|i: int|
            0 <= i < orders@.len() ==> exists|c: int|
                0 <= c < customers@.len() && (#[trigger] orders@[i]).customer_id == (
                #[trigger] customers@[c]).id,
        result matches Ok(orders) ==> forall|i: int|
            0 <= i < orders@.len() ==> MIN_QUANTITY <= (#[trigger] orders@[i]).quantity
                <= MAX_QUANTITY,
        result matches Ok(orders) ==> forall|i: int|
            0 <= i < orders@.len() ==> status_texts(statuses@).contains(
                (#[trigger] orders@[i]).status@,
            ),
        result matches Ok(orders) ==> forall|i: int|
            0 <= i < orders@.len() ==> product_catalog().contains(
                (#[trigger] orders@[i]).product_name@,
            ),
        result matches Ok(orders) ==> (has_four_digit_year(today.day_number() - MAX_DAYS_BACK)
            && has_four_digit_year(today.day_number()) ==> forall|i: int|
            0 <= i < orders@.len() ==> has_iso_form((#[trigger] orders@[i]).order_date@)),
{
    if statuses.len() == 0 {
        return Err(GenerateError::InvalidArgument);
    }
    let ghost views = customer_views(customers@);
    let ghost texts = status_texts(statuses@);
    let ghost day = today.day_number();
    let mut orders: Vec<Order> = Vec::new();
    let ghost mut batches: Seq<Seq<OrderView>> = Seq::empty();
    let mut c: usize = 0;
    while c < customers.len()
        invariant
            min_orders <= max_orders,
            statuses@.len() > 0,
            views == customer_views(customers@),
            texts == status_texts(statuses@),
            day == today.day_number(),
            c <= customers@.len(),
            batches_fit(
                batches,
                views.take(c as int),
                min_orders as nat,
                max_orders as nat,
                texts,
                random_status,
                day,
            ),
            order_views(orders@) == join_batches(batches),
            order_ids_contiguous(order_views(orders@)),
            c * min_orders <= orders@.len() <= c * max_orders,
        decreases customers@.len() - c,
    {
        let customer_id = customers[c].id;
        let count = source.in_range(min_orders, max_orders);
        let ghost mut batch: Seq<OrderView> = Seq::empty();
        let ghost start = orders@.len();
        proof {
            assert((c + 1) * max_orders == c * max_orders + max_orders) by (nonlinear_arith);
            assert((c + 1) * min_orders == c * min_orders + min_orders) by (nonlinear_arith);
        }
        let mut k: usize = 0;
        while k < count
            invariant
                statuses@.len() > 0,
                texts == status_texts(statuses@),
                day == today.day_number(),
                k <= count <= max_orders,
                orders@.len() == start + k,
                batch.len() == k,
                forall|i: int|
                    0 <= i < batch.len() ==> order_fits(
                        #[trigger] batch[i],
                        customer_id as nat,
                        i,
                        texts,
                        random_status,
                        day,
                    ),
                order_views(orders@) == join_batches(batches) + batch,
                order_ids_contiguous(order_views(orders@)),
            decreases count - k,
        {
            let order = generate_order(
                source,
                today,
                customer_id,
                k,
                statuses,
                random_status,
            );
            let ghost before = order_views(orders@);
            let ghost made = with_id(order@, orders@.len() + 1);
            push_numbered(&mut orders, order);
            proof {
                assert(order_views(orders@).len() == orders@.len());
                batch = batch.push(made);
                assert(join_batches(batches) + batch =~= before.push(made));
            }
            k += 1;
        }
        proof {
            let grown = batches.push(batch);
            assert(grown.drop_last() =~= batches);
            assert(grown.last() == batch);
            assert(views.take(c + 1)[c as int] == views[c as int]);
            assert forall|j: int| 0 <= j < grown.len() implies batch_fits(
                #[trigger] grown[j],
                views.take(c + 1)[j].id,
                min_orders as nat,
                max_orders as nat,
                texts,
                random_status,
                day,
            ) by {
                if j < c {
                    assert(grown[j] == batches[j]);
                    assert(views.take(c + 1)[j] == views.take(c as int)[j]);
                }
            }
            batches = grown;
        }
        c += 1;
    }
    proof {
        assert(views.take(c as int) =~= views);
        let made = order_views(orders@);
        let (least, most) = (min_orders as nat, max_orders as nat);
        assert(is_generated_orders(made, views, least, most, texts, random_status, day));
        orders_belong_to_customers(made, views, least, most, texts, random_status, day);
        quantities_in_range(made, views, least, most, texts, random_status, day);
        statuses_in_vocabulary(made, views, least, most, texts, random_status, day);
        products_in_catalog(made, views, least, most, texts, random_status, day);
        if has_four_digit_year(day - MAX_DAYS_BACK) && has_four_digit_year(day) {
            order_dates_have_iso_form(made, views, least, most, texts, random_status, day);
        }
        assert forall|i: int| 0 <= i < orders@.len() implies product_catalog().contains(
            (#[trigger] orders@[i]).product_name@,
        ) by {
            assert(made[i].product_name == orders@[i].product_name@);
        }
        assert(has_four_digit_year(day - MAX_DAYS_BACK) && has_four_digit_year(day)
            ==> forall|i: int|
            0 <= i < orders@.len() ==> has_iso_form((#[trigger] orders@[i]).order_date@)) by {
            assert forall|i: int| 0 <= i < orders@.len() implies made[i].order_date
                == (#[trigger] orders@[i]).order_date@ by {}
        }
        assert forall|i: int| 0 <= i < orders@.len() implies exists|c: int|
            0 <= c < customers@.len() && (#[trigger] orders@[i]).customer_id == (
            #[trigger] customers@[c]).id by {
            let c = choose|c: int|
                0 <= c < views.len() && (#[trigger] made[i]).customer_id == (
                #[trigger] views[c]).id;
            assert(views[c].id == customers@[c].id);
        }
        assert forall|i: int| 0 <= i < orders@.len() implies MIN_QUANTITY <= (
        #[trigger] orders@[i]).quantity <= MAX_QUANTITY by {
            assert(made[i].quantity == orders@[i].quantity);
        }
        assert forall|i: int| 0 <= i < orders@.len() implies texts.contains(
            (#[trigger] orders@[i]).status@,
        ) by {
            assert(made[i].status == orders@[i].status@);
        }
        assert forall|i: int| 0 <= i < orders@.len() implies (#[trigger] orders@[i]).id == i
            + 1 by {
            assert(made[i].id == orders@[i].id);
        }
    }
    Ok(orders)
}

/// The orders of all `customers`, drawn on the current day from a source
/// that the operating system seeds.
pub fn generate_orders(
    customers: &[Customer],
    min_orders: usize,
    max_orders: usize,
    statuses: &[&str],
    random_status: bool,
) -> (result: Result<Vec<Order>, GenerateError>)
    requires
        min_orders <= max_orders,
    ensures
        result is Err <==> statuses@.len() == 0,
        result matches Err(error) ==> error == GenerateError::InvalidArgument,
        result matches Ok(orders) ==> exists|today: int|
            EPOCH_DAY <= today <= LAST_DAY && #[trigger] is_generated_orders(
                order_views(orders@),
                customer_views(customers@),
                min_orders as nat,
                max_orders as nat,
                status_texts(statuses@),
                random_status,
                today,
            ),
        result matches Ok(orders) ==> customers@.len() * min_orders <= orders@.len()
            <= customers@.len() * max_orders,
        result matches Ok(orders) ==> forall|i: int|
            0 <= i < orders@.len() ==> (#[trigger] orders@[i]).id == i + 1,
        result matches Ok(orders) ==> forall|i: int|
            0 <= i < orders@.len() ==> exists|c: int|
                0 <= c < customers@.len() && (#[trigger] orders@[i]).customer_id == (
                #[trigger] customers@[c]).id,
        result matches Ok(orders) ==> forall|i: int|
            0 <= i < orders@.len() ==> MIN_QUANTITY <= (#[trigger] orders@[i]).quantity
                <= MAX_QUANTITY,
        result matches Ok(orders) ==> forall|i: int|
            0 <= i < orders@.len() ==> status_texts(statuses@).contains(
                (#[trigger] orders@[i]).status@,
            ),
        result matches Ok(orders) ==> forall|i: int|
            0 <= i < orders@.len() ==> product_catalog().contains(
                (#[trigger] orders@[i]).product_name@,
            ),
{
    let mut source = RandomSource::from_entropy();
    let today = Today::now();
    generate_orders_with(
        &mut source,
        &today,
        customers,
        min_orders,
        max_orders,
        statuses,
        random_status,
    )
}

} // verus!
