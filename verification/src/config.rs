use vstd::prelude::*;

use crate::error::ServerError;

verus! {

/// The pieces of a byte string between its commas, in order.  A string
/// without commas is one piece; every comma opens a new piece, so a trailing
/// comma yields a trailing empty piece.
pub open spec fn split_commas(s: Seq<u8>) -> Seq<Seq<u8>>
    decreases s.len(),
{
    if s.len() == 0 {
        seq![Seq::<u8>::empty()]
    } else {
        let rest = split_commas(s.drop_last());
        if s.last() == 44 {
            rest.push(Seq::<u8>::empty())
        } else {
            rest.update(rest.len() - 1, rest.last().push(s.last()))
        }
    }
}

proof fn lemma_split_commas_nonempty(s: Seq<u8>)
    ensures
        split_commas(s).len() >= 1,
    decreases s.len(),
{
    if s.len() > 0 {
        lemma_split_commas_nonempty(s.drop_last());
    }
}

/// ASCII whitespace as the discovery list accepts it around an address.
pub open spec fn is_space(b: u8) -> bool {
    b == 32 || b == 9 || b == 13 || b == 10
}

/// The byte string with leading whitespace dropped.
pub open spec fn trim_front(s: Seq<u8>) -> Seq<u8>
    decreases s.len(),
{
    if s.len() > 0 && is_space(s[0]) {
        trim_front(s.drop_first())
    } else {
        s
    }
}

/// The byte string with trailing whitespace dropped.
pub open spec fn trim_back(s: Seq<u8>) -> Seq<u8>
    decreases s.len(),
{
    if s.len() > 0 && is_space(s.last()) {
        trim_back(s.drop_last())
    } else {
        s
    }
}

/// The byte string with surrounding whitespace dropped.
pub open spec fn trim_spec(s: Seq<u8>) -> Seq<u8> {
    trim_back(trim_front(s))
}

/// Index of the last colon of the byte string, `-1` when it has none.
pub open spec fn last_colon(s: Seq<u8>) -> int
    decreases s.len(),
{
    if s.len() == 0 {
        -1
    } else if s.last() == 58 {
        s.len() - 1
    } else {
        last_colon(s.drop_last())
    }
}

/// An ASCII decimal digit.
pub open spec fn is_digit(b: u8) -> bool {
    48 <= b <= 57
}

/// Numeric value of an ASCII digit string.
pub open spec fn port_val(s: Seq<u8>) -> int
    decreases s.len(),
{
    if s.len() == 0 {
        0
    } else {
        port_val(s.drop_last()) * 10 + (s.last() - 48)
    }
}

/// A well-formed `host:port` address: a non-empty host, a colon, and one to
/// five decimal digits whose value fits a port number.
pub open spec fn valid_addr(s: Seq<u8>) -> bool {
    let c = last_colon(s);
    &&& 1 <= c
    &&& c < s.len() - 1
    &&& s.len() - 1 - c <= 5
    &&& forall|i: int| c < i < s.len() ==> is_digit(#[trigger] s[i])
    &&& port_val(s.subrange(c + 1, s.len() as int)) <= 65535
}

proof fn lemma_last_colon(s: Seq<u8>)
    ensures
        last_colon(s) == -1 || 0 <= last_colon(s) < s.len(),
        last_colon(s) == -1 ==> forall|i: int| 0 <= i < s.len() ==> s[i] != 58,
        last_colon(s) >= 0 ==> 0 <= last_colon(s) < s.len() && s[last_colon(s)] == 58 && forall|
            i: int,
        |
            last_colon(s) < i < s.len() ==> s[i] != 58,
    decreases s.len(),
{
    if s.len() > 0 && s.last() != 58 {
        lemma_last_colon(s.drop_last());
        assert(forall|i: int| 0 <= i < s.len() - 1 ==> s[i] == s.drop_last()[i]);
    }
}

spec fn pow10(n: nat) -> int
    decreases n,
{
    if n == 0 {
        1
    } else {
        10 * pow10((n - 1) as nat)
    }
}

proof fn lemma_port_val_bound(s: Seq<u8>)
    requires
        forall|i: int| 0 <= i < s.len() ==> is_digit(#[trigger] s[i]),
    ensures
        0 <= port_val(s) < pow10(s.len()),
    decreases s.len(),
{
    if s.len() > 0 {
        lemma_port_val_bound(s.drop_last());
    }
}

/// Checks that a byte string is a well-formed `host:port` address.
pub fn check_addr(s: &Vec<u8>) -> (ok: bool)
    ensures
        ok == valid_addr(s@),
{
    let n = s.len();
    let mut has_colon: bool = false;
    let mut c: usize = 0;
    let mut i: usize = 0;
    while i < n
        invariant
            n == s@.len(),
            i <= n,
            has_colon ==> c < i && s@[c as int] == 58 && forall|k: int|
                c < k < i ==> s@[k] != 58,
            !has_colon ==> forall|k: int| 0 <= k < i ==> s@[k] != 58,
        decreases n - i,
    {
        if s[i] == 58 {
            has_colon = true;
            c = i;
        }
        i += 1;
    }
    proof {
        lemma_last_colon(s@);
        if has_colon {
            assert(last_colon(s@) == c as int) by {
                if last_colon(s@) == -1 {
                    assert(s@[c as int] != 58);
                } else {
                    if last_colon(s@) < c {
                        assert(s@[c as int] != 58);
                    }
                    if c < last_colon(s@) {
                        assert(s@[last_colon(s@)] != 58);
                    }
                }
            }
        } else {
            if last_colon(s@) >= 0 {
                assert(s@[last_colon(s@)] != 58);
            }
        }
    }
    if !has_colon {
        return false;
    }
    if c < 1 || c + 1 >= n || n - 1 - c > 5 {
        return false;
    }
    let mut val: u32 = 0;
    let mut j: usize = c + 1;
    while j < n
        invariant
            n == s@.len(),
            c + 1 <= j <= n,
            1 <= c,
            c + 1 < n,
            n - 1 - c <= 5,
            last_colon(s@) == c as int,
            forall|k: int| c < k < j ==> is_digit(#[trigger] s@[k]),
            val as int == port_val(s@.subrange(c + 1, j as int)),
            forall|k: int|
                0 <= k < s@.subrange(c + 1, j as int).len() ==> is_digit(
                    #[trigger] s@.subrange(c + 1, j as int)[k],
                ),
        decreases n - j,
    {
        let b = s[j];
        if b < 48 || b > 57 {
            proof {
                assert(!is_digit(s@[j as int]));
            }
            return false;
        }
        proof {
            lemma_port_val_bound(s@.subrange(c + 1, j as int));
            let l = s@.subrange(c + 1, j as int).len();
            assert(l <= 4);
            assert(pow10(0) == 1);
            assert(pow10(1) == 10);
            assert(pow10(2) == 100);
            assert(pow10(3) == 1000);
            assert(pow10(4) == 10000);
            assert(l == 0 || l == 1 || l == 2 || l == 3 || l == 4);
            assert(val < 10000);
        }
        val = val * 10 + ((b - 48) as u32);
        j += 1;
        proof {
            assert(s@.subrange(c + 1, j as int).drop_last() =~= s@.subrange(c + 1, j - 1));
            assert(s@.subrange(c + 1, j as int).last() == s@[j - 1]);
        }
    }
    proof {
        assert(s@.subrange(c + 1, j as int) =~= s@.subrange(c + 1, s@.len() as int));
    }
    val <= 65535
}

/// Drops the surrounding whitespace of a byte string.
pub fn trim_bytes(s: &Vec<u8>) -> (r: Vec<u8>)
    ensures
        r@ == trim_spec(s@),
{
    let n = s.len();
    proof {
        assert(s@.skip(0) =~= s@);
    }
    let mut start: usize = 0;
    while start < n && (s[start] == 32 || s[start] == 9 || s[start] == 13 || s[start] == 10)
        invariant
            n == s@.len(),
            start <= n,
            trim_front(s@) == trim_front(s@.skip(start as int)),
        decreases n - start,
    {
        proof {
            assert(s@.skip(start as int).drop_first() =~= s@.skip(start + 1));
            assert(s@.skip(start as int)[0] == s@[start as int]);
        }
        start += 1;
    }
    proof {
        if start < n {
            assert(s@.skip(start as int)[0] == s@[start as int]);
            assert(!is_space(s@.skip(start as int)[0]));
        }
        assert(trim_front(s@) =~= s@.skip(start as int));
    }
    let mut end: usize = n;
    while end > start && (s[end - 1] == 32 || s[end - 1] == 9 || s[end - 1] == 13 || s[end - 1]
        == 10)
        invariant
            n == s@.len(),
            start <= end <= n,
            trim_front(s@) == s@.skip(start as int),
            trim_back(s@.skip(start as int)) == trim_back(s@.subrange(start as int, end as int)),
        decreases end,
    {
        proof {
            assert(s@.subrange(start as int, end as int).drop_last() =~= s@.subrange(
                start as int,
                end - 1,
            ));
            assert(s@.subrange(start as int, end as int).last() == s@[end - 1]);
            assert(s@.skip(start as int) =~= s@.subrange(start as int, n as int));
        }
        end -= 1;
    }
    proof {
        if end > start {
            assert(s@.subrange(start as int, end as int).last() == s@[end - 1]);
            assert(!is_space(s@.subrange(start as int, end as int).last()));
        }
        assert(trim_back(s@.subrange(start as int, end as int)) =~= s@.subrange(
            start as int,
            end as int,
        ));
    }
    let mut r: Vec<u8> = Vec::new();
    let mut i: usize = start;
    while i < end
        invariant
            n == s@.len(),
            start <= i <= end <= n,
            r@.len() == i - start,
            forall|k: int| 0 <= k < r@.len() ==> r@[k] == s@[start + k],
        decreases end - i,
    {
        r.push(s[i]);
        i += 1;
    }
    proof {
        assert(r@ =~= s@.subrange(start as int, end as int));
    }
    r
}

/// Splits a byte string into its comma-separated pieces.
pub fn split_bytes(s: &Vec<u8>) -> (r: Vec<Vec<u8>>)
    ensures
        r@.len() == split_commas(s@).len(),
        forall|i: int| 0 <= i < r@.len() ==> (#[trigger] r@[i])@ == split_commas(s@)[i],
{
    let mut done: Vec<Vec<u8>> = Vec::new();
    let mut cur: Vec<u8> = Vec::new();
    let mut i: usize = 0;
    while i < s.len()
        invariant
            i <= s@.len(),
            split_commas(s@.take(i as int)) == Seq::new(done@.len(), |k: int| done@[k]@).push(
                cur@,
            ),
        decreases s@.len() - i,
    {
        let ghost views_old = Seq::new(done@.len(), |k: int| done@[k]@);
        let b = s[i];
        proof {
            assert(s@.take(i + 1).drop_last() =~= s@.take(i as int));
            assert(s@.take(i + 1).last() == s@[i as int]);
            lemma_split_commas_nonempty(s@.take(i as int));
        }
        if b == 44 {
            done.push(cur);
            cur = Vec::new();
            proof {
                assert(Seq::new(done@.len(), |k: int| done@[k]@) =~= views_old.push(
                    done@[done@.len() - 1]@,
                ));
                assert(split_commas(s@.take(i + 1)) =~= Seq::new(
                    done@.len(),
                    |k: int| done@[k]@,
                ).push(cur@));
            }
        } else {
            cur.push(b);
            proof {
                assert(split_commas(s@.take(i + 1)) =~= Seq::new(
                    done@.len(),
                    |k: int| done@[k]@,
                ).push(cur@));
            }
        }
        i += 1;
    }
    proof {
        assert(s@.take(s@.len() as int) =~= s@);
    }
    done.push(cur);
    proof {
        let full = split_commas(s@);
        let views = Seq::new(done@.len(), |k: int| done@[k]@);
        assert(views =~= full);
    }
    done
}

/// Parses the environment-supplied discovery list: comma-separated
/// `host:port` addresses, each taken with surrounding whitespace dropped.
/// Yields the trimmed addresses in order, or the gateway error as a fatal
/// startup condition when any piece is malformed.
pub fn parse_backend_list(s: &Vec<u8>) -> (r: Result<Vec<Vec<u8>>, ServerError>)
    ensures
        r matches Ok(v) ==> {
            &&& v@.len() == split_commas(s@).len()
            &&& forall|i: int|
                0 <= i < v@.len() ==> (#[trigger] v@[i])@ == trim_spec(split_commas(s@)[i])
        },
        (r is Ok) == (forall|i: int|
            0 <= i < split_commas(s@).len() ==> valid_addr(trim_spec(
                #[trigger] split_commas(s@)[i],
            ))),
    {
    let pieces = split_bytes(s);
    let mut out: Vec<Vec<u8>> = Vec::new();
    let mut i: usize = 0;
    while i < pieces.len()
        invariant
            i <= pieces@.len(),
            pieces@.len() == split_commas(s@).len(),
            forall|k: int|
                0 <= k < pieces@.len() ==> (#[trigger] pieces@[k])@ == split_commas(s@)[k],
            out@.len() == i,
            forall|k: int|
                0 <= k < i ==> (#[trigger] out@[k])@ == trim_spec(split_commas(s@)[k]),
            forall|k: int| 0 <= k < i ==> valid_addr(trim_spec(#[trigger] split_commas(s@)[k])),
        decreases pieces@.len() - i,
    {
        let t = trim_bytes(&pieces[i]);
        if !check_addr(&t) {
            return Err(ServerError);
        }
        out.push(t);
        i += 1;
    }
    Ok(out)
}

/// The single default backend address used when discovery is not configured.
pub open spec fn default_addr_spec() -> Seq<u8> {
    seq![49u8, 50u8, 55u8, 46u8, 48u8, 46u8, 48u8, 46u8, 49u8, 58u8, 49u8, 56u8, 56u8, 51u8]
}

/// Builds the default backend address, `127.0.0.1:1883` as bytes.
pub fn default_backend_addr() -> (r: Vec<u8>)
    ensures
        r@ == default_addr_spec(),
{
    let r: Vec<u8> = vec![49u8, 50u8, 55u8, 46u8, 48u8, 46u8, 48u8, 46u8, 49u8, 58u8, 49u8, 56u8, 56u8, 51u8];
    proof {
        assert(r@ =~= default_addr_spec());
    }
    r
}

/// Resolves the discovery input: the parsed environment list when one is
/// supplied, the single default address otherwise.
pub fn resolve_backends(env_val: &Option<Vec<u8>>) -> (r: Result<Vec<Vec<u8>>, ServerError>)
    ensures
        env_val is None ==> (r matches Ok(v) && v@.len() == 1 && v@[0]@ == default_addr_spec()),
        env_val matches Some(s) ==> {
            &&& (r matches Ok(v) ==> {
                &&& v@.len() == split_commas(s@).len()
                &&& forall|i: int|
                    0 <= i < v@.len() ==> (#[trigger] v@[i])@ == trim_spec(split_commas(s@)[i])
            })
            &&& (r is Ok) == (forall|i: int|
                0 <= i < split_commas(s@).len() ==> valid_addr(trim_spec(
                    #[trigger] split_commas(s@)[i],
                )))
        },
{
    match env_val {
        None => {
            let mut v: Vec<Vec<u8>> = Vec::new();
            v.push(default_backend_addr());
            Ok(v)
        },
        Some(s) => parse_backend_list(s),
    }
}

} // verus!
