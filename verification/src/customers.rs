//! Customer records and their generator.

use crate::random::all_alphanumeric;
use crate::random::RandomSource;
use vstd::prelude::*;
use vstd::string::StringExecFns;

verus! {

/// The length of a generated customer name.
pub const NAME_LENGTH: usize = 10;

/// The length of the part of a generated email before the `@`.
pub const EMAIL_LOCAL_LENGTH: usize = 5;

/// A customer.
#[derive(Debug)]
pub struct Customer {
    pub id: usize,
    pub name: String,
    pub email: String,
}

/// A customer as a mathematical value.
pub struct CustomerView {
    pub id: nat,
    pub name: Seq<char>,
    pub email: Seq<char>,
}

impl View for Customer {
    type V = CustomerView;

    open spec fn view(&self) -> CustomerView {
        CustomerView { id: self.id as nat, name: self.name@, email: self.email@ }
    }
}

/// The customers of a vector, each as a mathematical value.
pub open spec fn customer_views(customers: Seq<Customer>) -> Seq<CustomerView> {
    Seq::new(customers.len(), |i: int| customers[i]@)
}

/// The domain that every generated email ends with, `@` included.
pub open spec fn email_domain() -> Seq<char> {
    "@example.com"@
}

/// `email` is a local part of letters and digits, of the generated length,
/// followed by the domain.
pub open spec fn is_generated_email(email: Seq<char>) -> bool {
    exists|local: Seq<char>|
        #![auto]
        local.len() == EMAIL_LOCAL_LENGTH && all_alphanumeric(local) && email == local
            + email_domain()
}

/// `customer` is what the generator makes for the place `index`, counted
/// from zero.
pub open spec fn is_generated_customer(customer: CustomerView, index: int) -> bool {
    &&& customer.id == index + 1
    &&& customer.name.len() == NAME_LENGTH
    &&& all_alphanumeric(customer.name)
    &&& is_generated_email(customer.email)
}

/// The ids of `customers` are 1, 2, 3 and so on, in order.
pub open spec fn ids_sequential(customers: Seq<CustomerView>) -> bool {
    forall|i: int| 0 <= i < customers.len() ==> (#[trigger] customers[i]).id == i + 1
}

/// `customers` is a result of generating `count` customers.
pub open spec fn is_generated_customers(customers: Seq<CustomerView>, count: nat) -> bool {
    &&& customers.len() == count
    &&& forall|i: int|
        0 <= i < customers.len() ==> is_generated_customer(#[trigger] customers[i], i)
}

/// A customer with the given id, and a name and an email drawn from
/// `source`.
pub fn generate_customer(source: &mut RandomSource, id: usize) -> (customer: Customer)
    ensures
        is_generated_customer(customer@, id - 1),
{
    let name = source.random_string(NAME_LENGTH);
    let local = source.random_string(EMAIL_LOCAL_LENGTH);
    let email = local.concat("@example.com");
    Customer { id, name, email }
}

/// `count` customers with the ids 1 to `count`, in order, drawn from
/// `source`.
pub fn generate_customers_with(source: &mut RandomSource, count: usize) -> (customers: Vec<
    Customer,
>)
    ensures
        customers@.len() == count,
        forall|i: int| 0 <= i < customers@.len() ==> (#[trigger] customers@[i]).id == i + 1,
        is_generated_customers(customer_views(customers@), count as nat),
{
    let mut customers: Vec<Customer> = Vec::new();
    let mut made: usize = 0;
    while made < count
        invariant
            made <= count,
            is_generated_customers(customer_views(customers@), made as nat),
        decreases count - made,
    {
        let ghost before = customer_views(customers@);
        let customer = generate_customer(source, made + 1);
        customers.push(customer);
        made += 1;
        proof {
            let after = customer_views(customers@);
            assert forall|i: int| 0 <= i < after.len() implies is_generated_customer(
                #[trigger] after[i],
                i,
            ) by {
                if i < before.len() {
                    assert(after[i] == before[i]);
                }
            }
        }
    }
    proof {
        let views = customer_views(customers@);
        assert forall|i: int| 0 <= i < customers@.len() implies (#[trigger] customers@[i]).id
            == i + 1 by {
            assert(is_generated_customer(views[i], i));
        }
    }
    customers
}

/// `count` customers with the ids 1 to `count`, in order, drawn from a
/// source that the operating system seeds.
pub fn generate_customers(num_customers: usize) -> (customers: Vec<Customer>)
    ensures
        customers@.len() == num_customers,
        forall|i: int| 0 <= i < customers@.len() ==> (#[trigger] customers@[i]).id == i + 1,
        is_generated_customers(customer_views(customers@), num_customers as nat),
{
    let mut source = RandomSource::from_entropy();
    generate_customers_with(&mut source, num_customers)
}

} // verus!
