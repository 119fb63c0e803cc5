//! The settings of a run, read from positional arguments.

use crate::text::all_digits;
use crate::text::decimal_text;
use crate::text::decimal_text_reads_back;
use crate::text::digit_value;
use crate::text::digits_value;
use crate::text::is_digit;
use crate::text::same_text;
use crate::text::string_push;
use vstd::prelude::*;
use vstd::string::StrSliceExecFns;
use vstd::string::StringExecFns;

verus! {

/// The number of customers where none is given.
pub const DEFAULT_CUSTOMERS: usize = 10;

/// The least number of orders for each customer where none is given.
pub const DEFAULT_MIN_ORDERS: usize = 5;

/// The greatest number of orders for each customer where none is given.
pub const DEFAULT_MAX_ORDERS: usize = 10;

/// The settings of a run.
#[derive(Debug)]
pub struct Config {
    pub num_customers: usize,
    pub min_orders: usize,
    pub max_orders: usize,
    pub statuses: Vec<String>,
    pub random_status: bool,
}

/// Settings as a mathematical value.
pub struct ConfigView {
    pub num_customers: nat,
    pub min_orders: nat,
    pub max_orders: nat,
    pub statuses: Seq<Seq<char>>,
    pub random_status: bool,
}

/// The texts of a vector of strings.
pub open spec fn texts(strings: Seq<String>) -> Seq<Seq<char>> {
    Seq::new(strings.len(), |i: int| strings[i]@)
}

impl View for Config {
    type V = ConfigView;

    open spec fn view(&self) -> ConfigView {
        ConfigView {
            num_customers: self.num_customers as nat,
            min_orders: self.min_orders as nat,
            max_orders: self.max_orders as nat,
            statuses: texts(self.statuses@),
            random_status: self.random_status,
        }
    }
}

/// `s` without a plus sign at its head.
pub open spec fn unsigned_part(s: Seq<char>) -> Seq<char> {
    if s.len() > 0 && s[0] == '+' {
        s.drop_first()
    } else {
        s
    }
}

/// The number that `s` stands for: decimal digits, at least one, after at
/// most one plus sign, and a value that a `usize` holds.
pub open spec fn parsed_count(s: Seq<char>) -> Option<usize> {
    let digits = unsigned_part(s);
    if digits.len() > 0 && all_digits(digits) && digits_value(digits) <= usize::MAX {
        Some(digits_value(digits) as usize)
    } else {
        None
    }
}

/// The flag that `s` stands for: `true` or `false`, written so.
pub open spec fn parsed_flag(s: Seq<char>) -> Option<bool> {
    if s == "true"@ {
        Some(true)
    } else if s == "false"@ {
        Some(false)
    } else {
        None
    }
}

/// The pieces of `s` between its commas: one more than it has commas, some
/// of them empty where commas meet or stand at an end.
pub open spec fn split_commas(s: Seq<char>) -> Seq<Seq<char>>
    decreases s.len(),
{
    if s.len() == 0 {
        seq![Seq::<char>::empty()]
    } else {
        let front = split_commas(s.drop_last());
        if s.last() == ',' {
            front.push(Seq::<char>::empty())
        } else {
            front.drop_last().push(front.last().push(s.last()))
        }
    }
}

/// The vocabulary where none is given.
pub open spec fn default_statuses() -> Seq<Seq<char>> {
    seq!["Pending"@, "Processing"@, "Shipped"@, "Delivered"@]
}

/// The argument at the place `index`, where there is one.
pub open spec fn argument(args: Seq<Seq<char>>, index: int) -> Option<Seq<char>> {
    if 0 <= index < args.len() {
        Some(args[index])
    } else {
        None
    }
}

/// The count that the argument at `index` gives, or `default` where the
/// argument is missing or is no count.
pub open spec fn count_argument(args: Seq<Seq<char>>, index: int, default: usize) -> nat {
    match argument(args, index) {
        Some(text) => match parsed_count(text) {
            Some(count) => count as nat,
            None => default as nat,
        },
        None => default as nat,
    }
}

/// The settings that the arguments give. The argument at place 0 is the
/// program's name; the five after it are the number of customers, the least
/// and the greatest number of orders for each customer, the vocabulary with
/// commas between its members, and whether statuses are drawn at random.
pub open spec fn settings_of(args: Seq<Seq<char>>) -> ConfigView {
    ConfigView {
        num_customers: count_argument(args, 1, DEFAULT_CUSTOMERS),
        min_orders: count_argument(args, 2, DEFAULT_MIN_ORDERS),
        max_orders: count_argument(args, 3, DEFAULT_MAX_ORDERS),
        statuses: match argument(args, 4) {
            Some(text) => split_commas(text),
            None => default_statuses(),
        },
        random_status: match argument(args, 5) {
            Some(text) => match parsed_flag(text) {
                Some(flag) => flag,
                None => true,
            },
            None => true,
        },
    }
}

/// The pieces with a comma between each two neighbours.
pub open spec fn join_commas(pieces: Seq<Seq<char>>) -> Seq<char>
    decreases pieces.len(),
{
    if pieces.len() == 0 {
        Seq::empty()
    } else if pieces.len() == 1 {
        pieces[0]
    } else {
        join_commas(pieces.drop_last()) + seq![','] + pieces.last()
    }
}

/// Splitting loses nothing: there is at least one piece, no piece holds a
/// comma, and the pieces joined by commas are the text again.
pub proof fn split_commas_joins_back(s: Seq<char>)
    ensures
        split_commas(s).len() >= 1,
        join_commas(split_commas(s)) == s,
        forall|i: int, j: int|
            0 <= i < split_commas(s).len() && 0 <= j < split_commas(s)[i].len() ==> (
            #[trigger] split_commas(s)[i][j]) != ',',
    decreases s.len(),
{
    let pieces = split_commas(s);
    if s.len() == 0 {
        assert(join_commas(pieces) =~= s);
    } else {
        let rest = s.drop_last();
        let front = split_commas(rest);
        split_commas_joins_back(rest);
        assert(rest.push(s.last()) =~= s);
        if s.last() == ',' {
            assert(pieces.drop_last() =~= front);
            assert(join_commas(pieces) =~= s);
        } else {
            let grown = front.last().push(s.last());
            assert(pieces.last() == grown);
            if front.len() == 1 {
                assert(join_commas(pieces) =~= s);
            } else {
                assert(pieces.drop_last() =~= front.drop_last());
                assert(join_commas(pieces) =~= join_commas(front).push(s.last()));
            }
            assert forall|i: int, j: int|
                0 <= i < pieces.len() && 0 <= j < pieces[i].len() implies (
            #[trigger] pieces[i][j]) != ',' by {
                if i < pieces.len() - 1 {
                    assert(pieces[i] == front[i]);
                    assert(front[i][j] != ',');
                } else if j < front.last().len() {
                    assert(front[front.len() - 1][j] != ',');
                }
            }
        }
    }
}

/// A count written in decimal is read as that count.
pub proof fn written_count_reads_back(n: usize)
    ensures
        parsed_count(decimal_text(n as nat)) == Some(n),
{
    decimal_text_reads_back(n as nat);
    let text = decimal_text(n as nat);
    assert(is_digit(text[0]));
}

/// The digits at the head of a sequence stand for no more than the whole.
pub proof fn digits_value_grows(digits: Seq<char>, upto: int)
    requires
        0 <= upto <= digits.len(),
    ensures
        digits_value(digits.take(upto)) <= digits_value(digits),
    decreases digits.len() - upto,
{
    if upto == digits.len() {
        assert(digits.take(upto) =~= digits);
    } else {
        digits_value_grows(digits, upto + 1);
        assert(digits.take(upto + 1).drop_last() =~= digits.take(upto));
    }
}

/// The count that `text` stands for, if it stands for one.
pub fn parse_count(text: &str) -> (count: Option<usize>)
    ensures
        count == parsed_count(text@),
{
    let n = text.unicode_len();
    let mut i: usize = 0;
    if n > 0 && text.get_char(0) == '+' {
        i = 1;
    }
    let start = i;
    let ghost digits = unsigned_part(text@);
    assert(digits =~= text@.subrange(start as int, n as int));
    if i == n {
        return None;
    }
    let mut value: usize = 0;
    while i < n
        invariant
            n == text@.len(),
            start <= i <= n,
            digits == text@.subrange(start as int, n as int),
            digits == unsigned_part(text@),
            all_digits(digits.take(i - start)),
            value == digits_value(digits.take(i - start)),
        decreases n - i,
    {
        let c = text.get_char(i);
        proof {
            assert(digits[i - start] == c);
            assert(digits.take(i - start + 1).drop_last() =~= digits.take(i - start));
            assert(digits.take(i - start + 1).last() == c);
            digits_value_grows(digits, i - start + 1);
            assert(digits_value(digits.take(i - start + 1)) == value * 10 + digit_value(c));
        }
        if !('0' <= c && c <= '9') {
            assert(!is_digit(digits[i - start]));
            return None;
        }
        let digit: usize = ((c as u8) - 48u8) as usize;
        let tens = match value.checked_mul(10) {
            Some(tens) => tens,
            None => {
                return None;
            },
        };
        value = match tens.checked_add(digit) {
            Some(sum) => sum,
            None => {
                return None;
            },
        };
        proof {
            assert forall|j: int| 0 <= j < i - start + 1 implies is_digit(
                #[trigger] digits.take(i - start + 1)[j],
            ) by {
                if j < i - start {
                    assert(digits.take(i - start)[j] == digits[j]);
                }
            }
        }
        i += 1;
    }
    proof {
        assert(digits.take(n - start) =~= digits);
    }
    Some(value)
}

/// The flag that `text` stands for, if it stands for one.
pub fn parse_flag(text: &str) -> (flag: Option<bool>)
    ensures
        flag == parsed_flag(text@),
{
    if same_text(text, "true") {
        Some(true)
    } else if same_text(text, "false") {
        Some(false)
    } else {
        None
    }
}

/// The pieces of `text` between its commas.
pub fn split_statuses(text: &str) -> (pieces: Vec<String>)
    ensures
        texts(pieces@) == split_commas(text@),
{
    let n = text.unicode_len();
    let mut pieces: Vec<String> = Vec::new();
    let mut piece = String::new();
    let mut i: usize = 0;
    proof {
        assert(text@.take(0) =~= Seq::<char>::empty());
        assert(texts(pieces@).push(piece@) =~= split_commas(text@.take(0)));
    }
    while i < n
        invariant
            n == text@.len(),
            i <= n,
            texts(pieces@).push(piece@) == split_commas(text@.take(i as int)),
        decreases n - i,
    {
        let c = text.get_char(i);
        let ghost front = split_commas(text@.take(i as int));
        let ghost done = texts(pieces@);
        proof {
            assert(text@.take(i + 1).drop_last() =~= text@.take(i as int));
            assert(text@.take(i + 1).last() == c);
            assert(front.last() == piece@);
            assert(front.drop_last() =~= done);
        }
        if c == ',' {
            pieces.push(piece);
            piece = String::new();
            proof {
                assert(texts(pieces@) =~= front);
            }
        } else {
            string_push(&mut piece, c);
        }
        i += 1;
    }
    proof {
        assert(text@.take(n as int) =~= text@);
    }
    let ghost done = texts(pieces@);
    let ghost last = piece@;
    pieces.push(piece);
    proof {
        assert(texts(pieces@) =~= done.push(last));
    }
    pieces
}

/// The vocabulary where none is given.
pub fn default_status_list() -> (statuses: Vec<String>)
    ensures
        texts(statuses@) == default_statuses(),
{
    let statuses = vec![
        String::from_str("Pending"),
        String::from_str("Processing"),
        String::from_str("Shipped"),
        String::from_str("Delivered"),
    ];
    assert(texts(statuses@) =~= default_statuses());
    statuses
}

/// The count at the place `index` of `args`, or `default`.
fn count_at(args: &[String], index: usize, default: usize) -> (count: usize)
    ensures
        count == count_argument(texts(args@), index as int, default),
{
    if index < args.len() {
        assert(texts(args@)[index as int] == args@[index as int]@);
        match parse_count(args[index].as_str()) {
            Some(count) => count,
            None => default,
        }
    } else {
        default
    }
}

impl Config {
    /// The settings that the arguments give, each missing or unreadable one
    /// replaced by its default.
    pub fn from_args(args: &[String]) -> (config: Config)
        ensures
            config@ == settings_of(texts(args@)),
    {
        let num_customers = count_at(args, 1, DEFAULT_CUSTOMERS);
        let min_orders = count_at(args, 2, DEFAULT_MIN_ORDERS);
        let max_orders = count_at(args, 3, DEFAULT_MAX_ORDERS);
        let statuses = if 4 < args.len() {
            assert(texts(args@)[4] == args@[4]@);
            split_statuses(args[4].as_str())
        } else {
            default_status_list()
        };
        let random_status = if 5 < args.len() {
            assert(texts(args@)[5] == args@[5]@);
            match parse_flag(args[5].as_str()) {
                Some(flag) => flag,
                None => true,
            }
        } else {
            true
        };
        Config { num_customers, min_orders, max_orders, statuses, random_status }
    }
}

} // verus!
