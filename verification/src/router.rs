//! Request routing: which of the two GET routes a path hits, and the
//! parsing of the `{id}` path parameter.
//!
//! A path is a byte string. The id segment is accepted exactly when it
//! is an optional sign followed by decimal digits and its value fits a
//! 64-bit signed integer; anything else at that position is a client
//! error, answered with `400`.

use vstd::prelude::*;

verus! {

/// A decimal digit byte.
pub open spec fn is_digit(b: u8) -> bool {
    0x30 <= b <= 0x39
}

/// Every byte of `s` is a decimal digit.
pub open spec fn all_digits(s: Seq<u8>) -> bool {
    forall|k: int| 0 <= k < s.len() ==> is_digit(s[k])
}

/// The value of a run of digit bytes, most significant first.
pub open spec fn digits_value(s: Seq<u8>) -> int
    decreases s.len(),
{
    if s.len() == 0 {
        0
    } else {
        digits_value(s.drop_last()) * 10 + (s.last() - 0x30)
    }
}

/// An integer as the path parser accepts it: an optional `+` or `-`
/// sign, then at least one digit.
pub open spec fn is_int_repr(s: Seq<u8>) -> bool {
    if s.len() > 0 && (s[0] == 0x2b || s[0] == 0x2d) {
        s.len() > 1 && all_digits(s.skip(1))
    } else {
        s.len() > 0 && all_digits(s)
    }
}

/// The value of an accepted integer representation.
pub open spec fn int_repr_value(s: Seq<u8>) -> int {
    if s.len() > 0 && s[0] == 0x2d {
        -digits_value(s.skip(1))
    } else if s.len() > 0 && s[0] == 0x2b {
        digits_value(s.skip(1))
    } else {
        digits_value(s)
    }
}

proof fn lemma_digits_value_nonneg(s: Seq<u8>)
    requires
        all_digits(s),
    ensures
        digits_value(s) >= 0,
    decreases s.len(),
{
    if s.len() > 0 {
        assert(all_digits(s.drop_last()));
        lemma_digits_value_nonneg(s.drop_last());
    }
}

proof fn lemma_digits_value_extend(s: Seq<u8>, k: int)
    requires
        0 <= k <= s.len(),
        all_digits(s),
    ensures
        digits_value(s.take(k)) <= digits_value(s),
    decreases s.len() - k,
{
    if k == s.len() {
        assert(s.take(k) =~= s);
    } else {
        lemma_digits_value_extend(s, k + 1);
        assert(s.take(k + 1).drop_last() =~= s.take(k));
        assert(all_digits(s.take(k)));
        lemma_digits_value_nonneg(s.take(k));
        assert(digits_value(s.take(k + 1)) == digits_value(s.take(k)) * 10 + (s[k] - 0x30));
    }
}

/// Parses a decimal integer with optional sign, exactly as the path
/// parameter is parsed: `Some` on a well-formed representation whose
/// value fits a 64-bit signed integer, `None` on everything else.
#[verifier::loop_isolation(false)]
pub fn parse_i64(s: &Vec<u8>) -> (r: Option<i64>)
    ensures
        (match r {
            Some(x) => is_int_repr(s@) && i64::MIN <= int_repr_value(s@) <= i64::MAX && x as int
                == int_repr_value(s@),
            None => !is_int_repr(s@) || int_repr_value(s@) < i64::MIN || int_repr_value(s@)
                > i64::MAX,
        }),
{
    let n: usize = s.len();
    if n == 0 {
        return None;
    }
    let b0: u8 = s[0];
    let neg: bool = b0 == 0x2d;
    let start: usize = if b0 == 0x2d || b0 == 0x2b {
        1
    } else {
        0
    };
    if n == start {
        // a sign alone
        return None;
    }
    let ghost whole = s@.skip(start as int);
    proof {
        if start == 0 {
            assert(whole =~= s@);
        }
        assert(s@.subrange(start as int, start as int) =~= whole.take(0));
    }
    let mut acc: u64 = 0;
    let mut i: usize = start;
    while i < n
        invariant
            start <= i <= n,
            n == s@.len(),
            start < n,
            whole == s@.skip(start as int),
            all_digits(whole.take(i - start)),
            acc as int == digits_value(whole.take(i - start)),
            acc <= 9223372036854775808u64,
        decreases n - i,
    {
        let d: u8 = s[i];
        proof {
            assert(whole.take(i + 1 - start).drop_last() =~= whole.take(i - start));
            assert(whole[i - start] == s@[i as int]);
        }
        if d < 0x30 || d > 0x39 {
            proof {
                assert(!is_digit(whole[i - start]));
                assert(!all_digits(whole));
                if start == 0 {
                    assert(whole =~= s@);
                }
                assert(!is_int_repr(s@));
            }
            return None;
        }
        let dv: u64 = (d - 0x30) as u64;
        if acc > 922337203685477580u64 || (acc == 922337203685477580u64 && dv > 8) {
            // the digits read so far already exceed every 64-bit value
            proof {
                assert(digits_value(whole.take(i + 1 - start)) == acc as int * 10 + dv);
                assert(acc as int * 10 + dv > 9223372036854775808);
                if all_digits(whole) {
                    lemma_digits_value_extend(whole, i + 1 - start);
                    assert(digits_value(whole) > 9223372036854775808);
                    if start == 0 {
                        assert(whole =~= s@);
                    }
                    assert(int_repr_value(s@) < i64::MIN || int_repr_value(s@) > i64::MAX);
                } else {
                    if start == 0 {
                        assert(whole =~= s@);
                    }
                    assert(!is_int_repr(s@));
                }
            }
            return None;
        }
        let nv: u64 = acc * 10 + dv;
        proof {
            assert(digits_value(whole.take(i + 1 - start)) == acc as int * 10 + dv);
        }
        acc = nv;
        i = i + 1;
    }
    proof {
        assert(whole.take(n - start) =~= whole);
        if start == 0 {
            assert(whole =~= s@);
        }
        assert(is_int_repr(s@));
        if neg {
            assert(int_repr_value(s@) == -(acc as int));
        } else {
            assert(int_repr_value(s@) == acc as int);
        }
    }
    if neg {
        if acc == 9223372036854775808u64 {
            Some(i64::MIN)
        } else {
            Some(-(acc as i64))
        }
    } else {
        if acc == 9223372036854775808u64 {
            // one past the largest positive value
            None
        } else {
            Some(acc as i64)
        }
    }
}

/// Which route a GET request hits.
#[derive(Debug, Clone, Copy, PartialEq, Eq, Structural)]
pub enum Route {
    /// `GET /lists`.
    Lists,
    /// `GET /lists/{id}/todos`, with the parsed id.
    Todos(i64),
    /// `GET /lists/{id}/todos` whose id segment is not an integer.
    BadTodoId,
    /// No route of this service.
    NotFound,
}

/// The bytes of the `/lists` path.
pub open spec fn lists_path() -> Seq<u8> {
    seq![0x2fu8, 0x6cu8, 0x69u8, 0x73u8, 0x74u8, 0x73u8]
}

/// The bytes of the `/lists/` prefix of the todos route.
pub open spec fn todos_prefix() -> Seq<u8> {
    seq![0x2fu8, 0x6cu8, 0x69u8, 0x73u8, 0x74u8, 0x73u8, 0x2fu8]
}

/// The bytes of the `/todos` suffix of the todos route.
pub open spec fn todos_suffix() -> Seq<u8> {
    seq![0x2fu8, 0x74u8, 0x6fu8, 0x64u8, 0x6fu8, 0x73u8]
}

/// A path of the shape `/lists/{id}/todos`: the prefix, one non-empty
/// segment without a slash, the suffix.
pub open spec fn is_todos_path(p: Seq<u8>) -> bool {
    &&& p.len() >= 14
    &&& p.take(7) == todos_prefix()
    &&& p.skip(p.len() - 6) == todos_suffix()
    &&& forall|k: int| 7 <= k < p.len() - 6 ==> p[k] != 0x2f
}

/// The id segment of a todos path.
pub open spec fn todos_id_segment(p: Seq<u8>) -> Seq<u8> {
    p.subrange(7, p.len() - 6)
}

/// Whether a mathematical integer fits a 64-bit signed integer.
pub open spec fn fits_i64(v: int) -> bool {
    i64::MIN <= v <= i64::MAX
}

/// The routing decision as a function of the path bytes.
pub open spec fn route_spec(p: Seq<u8>) -> Route {
    if p == lists_path() {
        Route::Lists
    } else if is_todos_path(p) {
        if is_int_repr(todos_id_segment(p)) && fits_i64(int_repr_value(todos_id_segment(p))) {
            Route::Todos(int_repr_value(todos_id_segment(p)) as i64)
        } else {
            Route::BadTodoId
        }
    } else {
        Route::NotFound
    }
}

/// Matches a request path against the two routes of the service.
pub fn route(path: &Vec<u8>) -> (r: Route)
    ensures
        r == route_spec(path@),
{
    let n: usize = path.len();
    if n == 6 && path[0] == 0x2f && path[1] == 0x6c && path[2] == 0x69 && path[3] == 0x73
        && path[4] == 0x74 && path[5] == 0x73 {
        proof {
            assert(path@ =~= lists_path());
        }
        return Route::Lists;
    }
    proof {
        assert(path@ != lists_path());
    }
    if n < 14 {
        return Route::NotFound;
    }
    let okp: bool = path[0] == 0x2f && path[1] == 0x6c && path[2] == 0x69 && path[3] == 0x73
        && path[4] == 0x74 && path[5] == 0x73 && path[6] == 0x2f;
    let oks: bool = path[n - 6] == 0x2f && path[n - 5] == 0x74 && path[n - 4] == 0x6f && path[n
        - 3] == 0x64 && path[n - 2] == 0x6f && path[n - 1] == 0x73;
    if !okp || !oks {
        proof {
            if okp {
                assert(path@.skip(n - 6) !~= todos_suffix());
            } else {
                assert(path@.take(7) !~= todos_prefix());
            }
        }
        return Route::NotFound;
    }
    proof {
        assert(path@.take(7) =~= todos_prefix());
        assert(path@.skip(n - 6) =~= todos_suffix());
    }
    let mut i: usize = 7;
    let mut seg: Vec<u8> = Vec::new();
    proof {
        assert(seg@ =~= path@.subrange(7, 7));
    }
    while i < n - 6
        invariant
            7 <= i <= n - 6,
            14 <= n == path@.len(),
            seg@ == path@.subrange(7, i as int),
            forall|k: int| 7 <= k < i ==> path@[k] != 0x2f,
        decreases n - i,
    {
        let b: u8 = path[i];
        if b == 0x2f {
            return Route::NotFound;
        }
        seg.push(b);
        proof {
            assert(path@.subrange(7, i + 1) =~= path@.subrange(7, i as int).push(
                path@[i as int],
            ));
        }
        i = i + 1;
    }
    proof {
        assert(is_todos_path(path@));
        assert(seg@ == todos_id_segment(path@));
    }
    match parse_i64(&seg) {
        Some(v) => Route::Todos(v),
        None => Route::BadTodoId,
    }
}

} // verus!

