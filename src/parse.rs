use vstd::prelude::*;

verus! {

/// ASCII whitespace: space, tab, line feed, vertical tab, form feed and
/// carriage return.
pub open spec fn is_space(b: u8) -> bool {
    b == 32 || (9 <= b && b <= 13)
}

pub open spec fn is_digit(b: u8) -> bool {
    48 <= b && b <= 57
}

/// Splitting bytes at whitespace, read from the left: the words completed so
/// far and the word being read (empty between words).
pub open spec fn scan(s: Seq<u8>) -> (Seq<Seq<u8>>, Seq<u8>)
    decreases s.len(),
{
    if s.len() == 0 {
        (Seq::empty(), Seq::empty())
    } else {
        let (done, cur) = scan(s.drop_last());
        let b = s.last();
        if !is_space(b) {
            (done, cur.push(b))
        } else if cur.len() > 0 {
            (done.push(cur), Seq::empty())
        } else {
            (done, Seq::empty())
        }
    }
}

/// The maximal runs of non-whitespace bytes of `s`, in order.
pub open spec fn words(s: Seq<u8>) -> Seq<Seq<u8>> {
    let (done, cur) = scan(s);
    if cur.len() > 0 {
        done.push(cur)
    } else {
        done
    }
}

/// The number written by decimal digits, most significant first.
pub open spec fn digits_value(d: Seq<u8>) -> int
    decreases d.len(),
{
    if d.len() == 0 {
        0
    } else {
        digits_value(d.drop_last()) * 10 + (d.last() - 48)
    }
}

/// Whether a word starts with a sign, `-` or `+`.
pub open spec fn has_sign(w: Seq<u8>) -> bool {
    w.len() > 0 && (w[0] == 45 || w[0] == 43)
}

/// A word without its sign.
pub open spec fn unsigned_part(w: Seq<u8>) -> Seq<u8> {
    if has_sign(w) {
        w.drop_first()
    } else {
        w
    }
}

pub open spec fn all_digits(d: Seq<u8>) -> bool {
    forall|k: int| 0 <= k < d.len() ==> is_digit(#[trigger] d[k])
}

/// The signed 32-bit integer that a word writes: an optional `+` or `-`,
/// then one or more decimal digits, in range; `None` for any other word.
pub open spec fn word_value(w: Seq<u8>) -> Option<int> {
    let body = unsigned_part(w);
    let v = if has_sign(w) && w[0] == 45 {
        -digits_value(body)
    } else {
        digits_value(body)
    };
    if body.len() > 0 && all_digits(body) && i32::MIN <= v <= i32::MAX {
        Some(v)
    } else {
        None
    }
}

/// Whether every word of `s` writes a signed 32-bit integer.
pub open spec fn all_numbers(s: Seq<u8>) -> bool {
    forall|k: int| 0 <= k < words(s).len() ==> (#[trigger] word_value(words(s)[k])).is_some()
}

/// The first word that writes no signed 32-bit integer.
#[derive(Debug, PartialEq, Eq)]
pub struct ParseError {
    /// Its position among the words, counting from zero.
    pub word: usize,
}

/// Magnitudes are counted up to this value, one past the largest that a
/// word of a signed 32-bit integer can have; larger ones stop there.
const CAP: u64 = 2147483649;

/// The integer that a word of bytes writes, if any.
fn word_to_i32(w: &Vec<u8>) -> (r: Option<i32>)
    ensures
        r matches Some(v) ==> word_value(w@) == Some(v as int),
        r is None ==> word_value(w@) is None,
{
    let n = w.len();
    let signed = n > 0 && (w[0] == 45 || w[0] == 43);
    let negative = signed && w[0] == 45;
    let start: usize = if signed {
        1
    } else {
        0
    };
    let ghost body = unsigned_part(w@);
    assert(body =~= w@.subrange(start as int, n as int));
    if start == n {
        return None;
    }
    let mut magnitude: u64 = 0;
    let mut i: usize = start;
    while i < n
        invariant
            start <= i <= n,
            n == w@.len(),
            body == w@.subrange(start as int, n as int),
            signed == (w@.len() > 0 && (w@[0] == 45 || w@[0] == 43)),
            negative == (signed && w@[0] == 45),
            start == (if signed {
                1int
            } else {
                0int
            }),
            body == unsigned_part(w@),
            forall|k: int| start <= k < i ==> is_digit(#[trigger] w@[k]),
            digits_value(w@.subrange(start as int, i as int)) >= 0,
            magnitude as int == if digits_value(w@.subrange(start as int, i as int)) < CAP {
                digits_value(w@.subrange(start as int, i as int))
            } else {
                CAP as int
            },
        decreases n - i,
    {
        let b = w[i];
        if b < 48 || b > 57 {
            proof {
                let k = i - start;
                assert(body[k] == b);
                assert(!is_digit(body[k]));
                assert(!all_digits(body));
            }
            return None;
        }
        let ghost prefix = w@.subrange(start as int, i as int);
        let ghost next = w@.subrange(start as int, i + 1);
        assert(next.drop_last() =~= prefix);
        assert(digits_value(next) == digits_value(prefix) * 10 + (b - 48));
        if magnitude < CAP {
            magnitude = magnitude * 10 + (b - 48) as u64;
            if magnitude > CAP {
                magnitude = CAP;
            }
        }
        i = i + 1;
    }
    proof {
        assert(w@.subrange(start as int, n as int) == body);
        assert forall|k: int| 0 <= k < body.len() implies is_digit(#[trigger] body[k]) by {
            assert(body[k] == w@[start + k]);
        }
        assert(all_digits(body));
    }
    if negative {
        if magnitude > 2147483648 {
            None
        } else {
            Some((-(magnitude as i64)) as i32)
        }
    } else {
        if magnitude > 2147483647 {
            None
        } else {
            Some(magnitude as i32)
        }
    }
}

/// The words of `text`, split at runs of ASCII whitespace.
fn split_words(text: &[u8]) -> (r: Vec<Vec<u8>>)
    ensures
        r@.len() == words(text@).len(),
        forall|k: int| 0 <= k < r@.len() ==> (#[trigger] r@[k])@ == words(text@)[k],
{
    let mut done: Vec<Vec<u8>> = Vec::new();
    let mut cur: Vec<u8> = Vec::new();
    let mut i: usize = 0;
    while i < text.len()
        invariant
            i <= text@.len(),
            scan(text@.subrange(0, i as int)).1 == cur@,
            scan(text@.subrange(0, i as int)).0.len() == done@.len(),
            forall|k: int|
                0 <= k < done@.len() ==> (#[trigger] done@[k])@ == scan(
                    text@.subrange(0, i as int),
                ).0[k],
        decreases text@.len() - i,
    {
        let b = text[i];
        proof {
            let next = text@.subrange(0, i + 1);
            assert(next.drop_last() =~= text@.subrange(0, i as int));
            assert(next.last() == b);
        }
        if !(b == 32 || (9 <= b && b <= 13)) {
            cur.push(b);
        } else if cur.len() > 0 {
            let mut word: Vec<u8> = Vec::new();
            std::mem::swap(&mut cur, &mut word);
            done.push(word);
        }
        i = i + 1;
    }
    assert(text@.subrange(0, i as int) =~= text@);
    if cur.len() > 0 {
        done.push(cur);
    }
    done
}

/// Reads the whitespace-separated signed 32-bit integers of `text`, in
/// order. Fails on the first word that writes no such integer.
pub fn parse_numbers(text: &[u8]) -> (r: Result<Vec<i32>, ParseError>)
    ensures
        r is Ok <==> all_numbers(text@),
        r matches Ok(v) ==> v@.len() == words(text@).len() && forall|k: int|
            0 <= k < v@.len() ==> word_value(words(text@)[k]) == Some(#[trigger] v@[k] as int),
        r matches Err(e) ==> e.word < words(text@).len() && word_value(words(text@)[e.word as int])
            is None && forall|k: int|
            0 <= k < e.word ==> (#[trigger] word_value(words(text@)[k])).is_some(),
{
    let ws = split_words(text);
    let ghost all = words(text@);
    let mut out: Vec<i32> = Vec::new();
    let mut i: usize = 0;
    while i < ws.len()
        invariant
            all == words(text@),
            ws@.len() == all.len(),
            forall|k: int| 0 <= k < ws@.len() ==> (#[trigger] ws@[k])@ == all[k],
            i <= ws@.len(),
            out@.len() == i,
            forall|k: int| 0 <= k < i ==> word_value(all[k]) == Some(#[trigger] out@[k] as int),
        decreases ws@.len() - i,
    {
        match word_to_i32(&ws[i]) {
            Some(v) => {
                out.push(v);
            },
            None => {
                proof {
                    assert(word_value(all[i as int]) is None);
                    assert forall|k: int| 0 <= k < i implies (#[trigger] word_value(
                        all[k],
                    )).is_some() by {
                        assert(word_value(all[k]) == Some(out@[k] as int));
                    }
                }
                return Err(ParseError { word: i });
            },
        }
        i = i + 1;
    }
    proof {
        assert forall|k: int| 0 <= k < all.len() implies (#[trigger] word_value(
            all[k],
        )).is_some() by {
            assert(word_value(all[k]) == Some(out@[k] as int));
        }
    }
    Ok(out)
}

} // verus!
