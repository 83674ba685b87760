use vstd::prelude::*;

verus! {

/// The decimal digit character for `d` (taken below ten).
pub open spec fn digit_char(d: nat) -> char {
    seq!['0', '1', '2', '3', '4', '5', '6', '7', '8', '9'][d as int]
}

/// The decimal digits of `n`, most significant first, with no leading zero.
pub open spec fn digits(n: nat) -> Seq<char>
    decreases n,
{
    if n < 10 {
        seq![digit_char(n)]
    } else {
        digits(n / 10).push(digit_char(n % 10))
    }
}

/// The decimal text of an integer: a minus sign before the digits of its
/// magnitude when it is negative.
pub open spec fn int_text(i: int) -> Seq<char> {
    if i < 0 {
        seq!['-'] + digits((-i) as nat)
    } else {
        digits(i as nat)
    }
}

/// Texts joined with a comma and a space between neighbours.
pub open spec fn joined(items: Seq<Seq<char>>) -> Seq<char>
    decreases items.len(),
{
    if items.len() == 0 {
        Seq::empty()
    } else if items.len() == 1 {
        items[0]
    } else {
        joined(items.drop_last()) + seq![',', ' '] + items.last()
    }
}

/// The text of each value of a sequence, in order.
pub open spec fn texts<T: Render>(s: Seq<T>) -> Seq<Seq<char>> {
    s.map_values(|x: T| x.text())
}

/// The bracketed, comma-separated text of a sequence of values, in order:
/// `[1, 2, 3]`, or `[]` when it is empty.
pub open spec fn shown<T: Render>(s: Seq<T>) -> Seq<char> {
    seq!['['] + joined(texts(s)) + seq![']']
}

/// Values that have a textual rendering.
pub trait Render {
    /// The text that renders this value.
    spec fn text(&self) -> Seq<char>;

    /// Renders this value as text.
    fn render(&self) -> (r: String)
        ensures
            r@ == self.text(),
    ;
}

/// The one-character string holding the digit `d`.
fn digit_str(d: u64) -> (r: &'static str)
    requires
        d < 10,
    ensures
        r@ == seq![digit_char(d as nat)],
{
    proof {
        reveal_strlit("0");
        reveal_strlit("1");
        reveal_strlit("2");
        reveal_strlit("3");
        reveal_strlit("4");
        reveal_strlit("5");
        reveal_strlit("6");
        reveal_strlit("7");
        reveal_strlit("8");
        reveal_strlit("9");
    }
    if d == 0 {
        "0"
    } else if d == 1 {
        "1"
    } else if d == 2 {
        "2"
    } else if d == 3 {
        "3"
    } else if d == 4 {
        "4"
    } else if d == 5 {
        "5"
    } else if d == 6 {
        "6"
    } else if d == 7 {
        "7"
    } else if d == 8 {
        "8"
    } else {
        "9"
    }
}

/// The decimal digits of `n`, built from the least significant up.
fn render_digits(n: u128) -> (r: String)
    ensures
        r@ == digits(n as nat),
{
    let mut rest: u128 = n;
    let mut out = String::new();
    loop
        invariant
            digits(n as nat) == digits(rest as nat) + out@,
        decreases rest,
    {
        let ghost after = out@;
        let d = (rest % 10) as u64;
        out = String::from_str(digit_str(d)).concat(out.as_str());
        if rest < 10 {
            assert(digits(n as nat) =~= out@);
            return out;
        }
        proof {
            let r = rest as nat;
            assert(digits(r / 10).push(digit_char(r % 10)) + after =~= digits(r / 10) + out@);
        }
        rest = rest / 10;
    }
}

/// The decimal text of `i`.
fn render_int(i: i64) -> (r: String)
    ensures
        r@ == int_text(i as int),
{
    if i < 0 {
        let magnitude: u64 = if i == i64::MIN {
            9223372036854775808u64
        } else {
            (-i) as u64
        };
        let out = String::from_str("-").concat(render_digits(magnitude as u128).as_str());
        proof {
            reveal_strlit("-");
        }
        out
    } else {
        render_digits(i as u128)
    }
}

impl Render for i32 {
    open spec fn text(&self) -> Seq<char> {
        int_text(*self as int)
    }

    fn render(&self) -> (r: String) {
        render_int(*self as i64)
    }
}

impl Render for i64 {
    open spec fn text(&self) -> Seq<char> {
        int_text(*self as int)
    }

    fn render(&self) -> (r: String) {
        render_int(*self)
    }
}

impl Render for u32 {
    open spec fn text(&self) -> Seq<char> {
        int_text(*self as int)
    }

    fn render(&self) -> (r: String) {
        render_digits(*self as u128)
    }
}

impl Render for u128 {
    open spec fn text(&self) -> Seq<char> {
        int_text(*self as int)
    }

    fn render(&self) -> (r: String) {
        render_digits(*self)
    }
}

impl Render for usize {
    open spec fn text(&self) -> Seq<char> {
        int_text(*self as int)
    }

    fn render(&self) -> (r: String) {
        render_digits(*self as u128)
    }
}

impl Render for u64 {
    open spec fn text(&self) -> Seq<char> {
        int_text(*self as int)
    }

    fn render(&self) -> (r: String) {
        render_digits(*self as u128)
    }
}

} // verus!
