//! Small general helpers: results, lists, text truncation, hashes and time measurement.
use vstd::prelude::*;
use crate::ext::{graphemes_of, extended_graphemes, concat_all, fx_hasher_new, fx_hasher_write,
    fx_hasher_write_u8, fx_hasher_finish, instant_now, elapsed_millis};

verus! {

//
// Results
//

/// Wraps a value as a success, sparing the caller a type annotation.
pub fn ok<T, E>(v: T) -> (r: Result<T, E>)
    ensures
        r == Ok::<T, E>(v),
{
    Ok(v)
}

/// An optional result turned into a result of an option.
pub open spec fn transposed<T, E>(x: Option<Result<T, E>>) -> Result<Option<T>, E> {
    match x {
        None => Ok(None),
        Some(Ok(v)) => Ok(Some(v)),
        Some(Err(e)) => Err(e),
    }
}

/// `None` becomes `Ok(None)`, `Some(Ok(v))` becomes `Ok(Some(v))` and `Some(Err(e))`
/// becomes `Err(e)`.
pub fn transpose_option_result<T, E>(x: Option<Result<T, E>>) -> (r: Result<Option<T>, E>)
    ensures
        r == transposed(x),
{
    match x {
        None => Ok(None),
        Some(Ok(v)) => Ok(Some(v)),
        Some(Err(e)) => Err(e),
    }
}

/// Same as [`transpose_option_result`], for results whose error comes from the standard
/// library; the error is passed on as it is.
pub fn transpose_option_std_result<T, E>(x: Option<Result<T, E>>) -> (r: Result<Option<T>, E>)
    ensures
        r == transposed(x),
{
    transpose_option_result(x)
}

//
// Lists
//

/// The elements of `s` whose positions are not in `removed`, in order.
pub open spec fn without_indices_spec<T>(s: Seq<T>, removed: Seq<usize>) -> Seq<T>
    decreases s.len(),
{
    if s.len() == 0 {
        Seq::empty()
    } else {
        let prefix = without_indices_spec(s.drop_last(), removed);
        if removed.contains((s.len() - 1) as usize) {
            prefix
        } else {
            prefix.push(s.last())
        }
    }
}

fn contains_usize(v: &[usize], x: usize) -> (r: bool)
    ensures
        r == v@.contains(x),
{
    let mut i: usize = 0;
    while i < v.len()
        invariant
            0 <= i <= v@.len(),
            forall|k: int| 0 <= k < i ==> v@[k] != x,
        decreases v@.len() - i,
    {
        if v[i] == x {
            return true;
        }
        i = i + 1;
    }
    false
}

/// The elements of `vec` whose positions are not listed in `indices_to_remove`, in order.
pub fn without_indices<T>(vec: Vec<T>, indices_to_remove: &[usize]) -> (r: Vec<T>)
    ensures
        r@ == without_indices_spec(vec@, indices_to_remove@),
{
    let ghost orig = vec@;
    let n = vec.len();
    let mut res: Vec<T> = Vec::new();
    let mut i: usize = 0;
    assert(orig.take(0) =~= Seq::<T>::empty());
    for x in it: vec.into_iter()
        invariant
            i == it.index(),
            it.seq() == orig,
            n == orig.len(),
            res@ == without_indices_spec(orig.take(i as int), indices_to_remove@),
    {
        proof {
            assert(orig.take(i + 1).drop_last() =~= orig.take(i as int));
        }
        if !contains_usize(indices_to_remove, i) {
            res.push(x);
        }
        i = i + 1;
    }
    assert(orig.take(orig.len() as int) =~= orig);
    res
}

//
// Text
//

/// The first `max_len` extended grapheme clusters of `s` (all of them if it has fewer).
pub open spec fn truncated(s: Seq<char>, max_len: nat) -> Seq<char> {
    let g = extended_graphemes(s);
    concat_all(g.take(if max_len < g.len() { max_len as int } else { g.len() as int }))
}

/// The string cut to its first `max_len` extended grapheme clusters.
pub fn truncate_to(s: String, max_len: usize) -> (r: String)
    ensures
        r@ == truncated(s@, max_len as nat),
        max_len >= extended_graphemes(s@).len() ==> r@ == s@,
{
    let graphemes = graphemes_of(s.as_str());
    let ghost g = extended_graphemes(s@);
    let n = if max_len < graphemes.len() { max_len } else { graphemes.len() };
    let mut r = String::new();
    let mut i: usize = 0;
    assert(g.take(0) =~= Seq::<Seq<char>>::empty());
    while i < n
        invariant
            n <= graphemes@.len(),
            graphemes@.map_values(|x: String| x@) == g,
            0 <= i <= n,
            r@ == concat_all(g.take(i as int)),
        decreases n - i,
    {
        proof {
            assert(g.take(i + 1).drop_last() =~= g.take(i as int));
            assert(g[i as int] == graphemes@[i as int]@);
        }
        r.append(graphemes[i].as_str());
        i = i + 1;
    }
    proof {
        if max_len >= g.len() {
            assert(g.take(n as int) =~= g);
        }
    }
    r
}

//
// Hashing
//

/// Identifier derived from a string by a fast non-cryptographic hash: the hash of its bytes
/// followed by `0xFF`, halved so that it is never negative. Which number comes out depends
/// on the hasher, which depends on the machine's word size.
pub fn hash_to_id(s: &str) -> (r: i64)
    ensures
        r >= 0,
{
    let mut h = fx_hasher_new();
    fx_hasher_write(&mut h, s.as_bytes());
    fx_hasher_write_u8(&mut h, 0xff);
    let half = fx_hasher_finish(&h) / 2;
    half as i64
}

/// Hash of a file's content given as the successive chunks it was read in: the chunks are
/// fed to two hashers in turn, and the two hashes make the high and the low half of the
/// result. Which number comes out depends on the hasher, which depends on the machine's word
/// size.
pub fn file_hash(chunks: &Vec<Vec<u8>>) -> (r: u128) {
    let mut h0 = fx_hasher_new();
    let mut h1 = fx_hasher_new();
    let mut i: usize = 0;
    while i < chunks.len()
        invariant
            0 <= i <= chunks@.len(),
        decreases chunks@.len() - i,
    {
        if i % 2 == 0 {
            fx_hasher_write(&mut h0, chunks[i].as_slice());
        } else {
            fx_hasher_write(&mut h1, chunks[i].as_slice());
        }
        i = i + 1;
    }
    let high = fx_hasher_finish(&h0) as u128;
    let low = fx_hasher_finish(&h1) as u128;
    high * 0x1_0000_0000_0000_0000u128 + low
}

/// Uppercase hexadecimal digit for `d` (0 to 15).
pub open spec fn hex_char(d: int) -> char {
    if d < 10 {
        (('0' as int) + d) as char
    } else {
        (('A' as int) + d - 10) as char
    }
}

/// The last `n` uppercase hexadecimal digits of `h`, zero-padded.
pub open spec fn hex_digits(h: nat, n: nat) -> Seq<char>
    decreases n,
{
    if n == 0 {
        Seq::empty()
    } else {
        hex_digits(h / 16, (n - 1) as nat).push(hex_char((h % 16) as int))
    }
}

fn hex_digit_str(d: u128) -> (r: &'static str)
    requires
        d < 16,
    ensures
        r@ == seq![hex_char(d as int)],
{
    proof {
        reveal_strlit("0");
        reveal_strlit("1");
        reveal_strlit("2");
        reveal_strlit("3");
        reveal_strlit("4");
        reveal_strlit("5");
        reveal_strlit("6");
        reveal_strlit("7");
        reveal_strlit("8");
        reveal_strlit("9");
        reveal_strlit("A");
        reveal_strlit("B");
        reveal_strlit("C");
        reveal_strlit("D");
        reveal_strlit("E");
        reveal_strlit("F");
    }
    if d == 0 { "0" } else if d == 1 { "1" } else if d == 2 { "2" } else if d == 3 { "3" }
    else if d == 4 { "4" } else if d == 5 { "5" } else if d == 6 { "6" } else if d == 7 { "7" }
    else if d == 8 { "8" } else if d == 9 { "9" } else if d == 10 { "A" } else if d == 11 { "B" }
    else if d == 12 { "C" } else if d == 13 { "D" } else if d == 14 { "E" } else { "F" }
}

fn hex_digits_exec(h: u128, n: u32) -> (r: String)
    ensures
        r@ == hex_digits(h as nat, n as nat),
    decreases n,
{
    if n == 0 {
        String::new()
    } else {
        let mut r = hex_digits_exec(h / 16, n - 1);
        r.append(hex_digit_str(h % 16));
        r
    }
}

/// A hash as 32 uppercase hexadecimal digits.
pub fn hash_string(hash: u128) -> (r: String)
    ensures
        r@ == hex_digits(hash as nat, 32),
        r@.len() == 32,
{
    proof {
        law_hex_digits_len(hash as nat, 32);
    }
    hex_digits_exec(hash, 32)
}

/// Hash string (32 uppercase hex chars) of a file's content given as the successive chunks
/// it was read in, see [`file_hash`].
pub fn file_hash_string(chunks: &Vec<Vec<u8>>) -> (r: String)
    ensures
        exists|h: u128| r@ == hex_digits(h as nat, 32),
        r@.len() == 32,
{
    let h = file_hash(chunks);
    hash_string(h)
}

//
// Time measurement
//

/// Runs `block`, then hands its result and the milliseconds it took to `after_call`, and
/// returns the result.
pub fn measure<T, AC, R>(block: T, after_call: AC) -> (r: R)
    where
        T: FnOnce() -> R,
        AC: FnOnce(&R, u128),
    requires
        block.requires(()),
        forall|res: R, ms: u128| block.ensures((), res) ==> after_call.requires((&res, ms)),
    ensures
        block.ensures((), r),
{
    let start_time = instant_now();
    let result = block();
    let elapsed = elapsed_millis(&start_time);
    after_call(&result, elapsed);
    result
}

/// Removing no positions keeps the list as it is.
pub proof fn law_without_no_indices<T>(s: Seq<T>)
    ensures
        without_indices_spec(s, Seq::<usize>::empty()) == s,
    decreases s.len(),
{
    if s.len() > 0 {
        law_without_no_indices(s.drop_last());
        assert(s.drop_last().push(s.last()) =~= s);
    }
}

/// The hexadecimal text of a number has as many digits as asked for.
pub proof fn law_hex_digits_len(h: nat, n: nat)
    ensures
        hex_digits(h, n).len() == n,
    decreases n,
{
    if n > 0 {
        law_hex_digits_len(h / 16, (n - 1) as nat);
    }
}

} // verus!
