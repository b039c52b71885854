//! What the loaders of chat histories share: checking the file to load, and asking the user.
use vstd::prelude::*;
use crate::model::{User, ChatWithMessages};
use crate::ids::UserId;
use crate::ext::{e164_of, phone_e164};

verus! {

/// Why a file could not be loaded.
#[derive(Debug)]
pub enum LoaderError {
    /// The file to load does not exist.
    FileNotFound { path: String },
    /// The file is not the one this loader reads.
    FileNameMismatch { actual: String, expected: String },
}

/// The path of the file to load, if the file exists (the caller tells whether it does).
pub fn ensure_file_presence(root_file: &str, exists: bool) -> (r: Result<&str, LoaderError>)
    ensures
        exists ==> r == Ok::<&str, LoaderError>(root_file),
        !exists ==> (r matches Err(LoaderError::FileNotFound { path }) && path@ == root_file@),
{
    if !exists {
        return Err(LoaderError::FileNotFound { path: root_file.to_owned() });
    }
    Ok(root_file)
}

/// Why the user could not be asked.
#[derive(Clone, Copy, Debug, PartialEq, Eq, Structural)]
pub enum RequestError {
    /// There is no way to choose myself.
    CannotChooseMyself,
    /// There is no way to ask the user.
    CannotAskUser,
}

impl RequestError {
    pub fn message(&self) -> (r: &'static str)
        ensures
            *self == RequestError::CannotChooseMyself ==> r@ == "No way to choose myself!"@,
            *self == RequestError::CannotAskUser ==> r@ == "No way to ask user!"@,
    {
        match self {
            RequestError::CannotChooseMyself => "No way to choose myself!",
            RequestError::CannotAskUser => "No way to ask user!",
        }
    }
}

/// Asks the user what a loader cannot decide by itself.
pub trait UserInputRequester {
    /// Index of the user that is myself, among the given ones.
    fn choose_myself(&self, users: &Vec<User>) -> Result<usize, RequestError>;

    /// Text the user types in answer to the prompt.
    fn ask_for_text(&self, prompt: &str) -> Result<String, RequestError>;
}

/// Asks nobody: every request fails.
#[derive(Clone, Copy, Debug, PartialEq, Eq, Structural)]
pub struct NoChooser;

impl UserInputRequester for NoChooser {
    fn choose_myself(&self, users: &Vec<User>) -> (r: Result<usize, RequestError>)
        ensures
            r == Err::<usize, RequestError>(RequestError::CannotChooseMyself),
    {
        Err(RequestError::CannotChooseMyself)
    }

    fn ask_for_text(&self, prompt: &str) -> (r: Result<String, RequestError>)
        ensures
            r == Err::<String, RequestError>(RequestError::CannotAskUser),
    {
        Err(RequestError::CannotAskUser)
    }
}

/// Loader for WhatsApp Android databases.
#[derive(Clone, Copy, Debug, PartialEq, Eq, Structural)]
pub struct WhatsAppAndroidDataLoader;

/// Whether the user takes part in one of the chats.
pub open spec fn participates(cwms: Seq<ChatWithMessages>, id: i64) -> bool {
    exists|c: int, k: int|
        0 <= c < cwms.len() && 0 <= k < cwms[c].chat.member_ids@.len() && #[trigger] cwms[c].chat.member_ids@[k] == id
}

/// Sort key of a user: myself before everybody, the others by ID.
pub open spec fn user_key(u: User, myself: i64) -> int {
    if u.id == myself {
        i64::MIN as int
    } else {
        u.id as int
    }
}

/// Whether a user is kept: myself, and those taking part in a chat.
pub open spec fn user_kept(u: User, myself: i64, cwms: Seq<ChatWithMessages>) -> bool {
    u.id == myself || participates(cwms, u.id)
}

/// The IDs of the members of all chats.
fn participating_ids(cwms: &Vec<ChatWithMessages>) -> (r: Vec<i64>)
    ensures
        forall|id: i64| r@.contains(id) <==> participates(cwms@, id),
{
    let mut r: Vec<i64> = Vec::new();
    let mut c: usize = 0;
    while c < cwms.len()
        invariant
            0 <= c <= cwms@.len(),
            forall|id: i64| r@.contains(id) <==> exists|c2: int, k: int|
                0 <= c2 < c && 0 <= k < cwms@[c2].chat.member_ids@.len() && #[trigger] cwms@[c2].chat.member_ids@[k] == id,
        decreases cwms@.len() - c,
    {
        let ids = &cwms[c].chat.member_ids;
        let ghost before = r@;
        let mut k: usize = 0;
        while k < ids.len()
            invariant
                0 <= k <= ids@.len(),
                ids@ == cwms@[c as int].chat.member_ids@,
                r@ == before + ids@.take(k as int),
            decreases ids@.len() - k,
        {
            r.push(ids[k]);
            proof {
                assert(ids@.take(k + 1) =~= ids@.take(k as int).push(ids@[k as int]));
            }
            k = k + 1;
        }
        proof {
            assert(ids@.take(k as int) =~= ids@);
            assert forall|id: i64| r@.contains(id) <==> exists|c2: int, k2: int|
                0 <= c2 < c + 1 && 0 <= k2 < cwms@[c2].chat.member_ids@.len() && #[trigger] cwms@[c2].chat.member_ids@[k2] == id by {
                if r@.contains(id) {
                    let x = choose|x: int| 0 <= x < r@.len() && r@[x] == id;
                    if x >= before.len() {
                        assert(cwms@[c as int].chat.member_ids@[x - before.len()] == id);
                    } else {
                        assert(before.contains(id));
                    }
                }
                if exists|c2: int, k2: int|
                    0 <= c2 < c + 1 && 0 <= k2 < cwms@[c2].chat.member_ids@.len() && #[trigger] cwms@[c2].chat.member_ids@[k2] == id {
                    let (c2, k2) = choose|c2: int, k2: int|
                        0 <= c2 < c + 1 && 0 <= k2 < cwms@[c2].chat.member_ids@.len() && #[trigger] cwms@[c2].chat.member_ids@[k2] == id;
                    if c2 < c {
                        assert(before.contains(id));
                        let x = choose|x: int| 0 <= x < before.len() && before[x] == id;
                        assert(r@[x] == id);
                    } else {
                        assert(r@[before.len() + k2] == id);
                    }
                }
            }
        }
        c = c + 1;
    }
    r
}

fn contains_i64(v: &Vec<i64>, x: i64) -> (r: bool)
    ensures
        r == v@.contains(x),
{
    let mut i: usize = 0;
    while i < v.len()
        invariant
            0 <= i <= v@.len(),
            forall|k: int| 0 <= k < i ==> v@[k] != x,
        decreases v@.len() - i,
    {
        if v[i] == x {
            return true;
        }
        i = i + 1;
    }
    false
}

/// Loader for Tinder Android databases.
#[derive(Clone, Copy, Debug, PartialEq, Eq, Structural)]
pub struct TinderAndroidDataLoader;

impl TinderAndroidDataLoader {
    /// All users, myself first and the others by ID. The users are given by their IDs, each
    /// once.
    pub fn normalize_users(&self, users: Vec<User>, myself_id: UserId) -> (r: Vec<User>)
        requires
            forall|i: int, j: int| 0 <= i < j < users@.len() ==> users@[i].id != users@[j].id,
        ensures
            forall|i: int, j: int| 0 <= i < j < r@.len() ==> user_key(r@[i], myself_id.0) <= user_key(r@[j], myself_id.0),
            forall|u: User| r@.contains(u) <==> users@.contains(u),
            r@.len() == users@.len(),
            forall|i: int, j: int| 0 <= i < j < r@.len() ==> r@[i].id != r@[j].id,
    {
        let myself = myself_id.0;
        let ghost orig = users@;
        let n = users.len();
        let mut res: Vec<User> = Vec::new();
        let mut i: usize = 0;
        for u in it: users.into_iter()
            invariant
                i == it.index(),
                it.seq() == orig,
                n == orig.len(),
                res@.len() == i,
                forall|a: int, b: int| 0 <= a < b < orig.len() ==> orig[a].id != orig[b].id,
                forall|a: int, b: int| 0 <= a < b < res@.len() ==> user_key(res@[a], myself) <= user_key(res@[b], myself),
                forall|x: User| res@.contains(x) <==> orig.take(i as int).contains(x),
                forall|a: int, b: int| 0 <= a < b < res@.len() ==> res@[a].id != res@[b].id,
        {
            proof {
                assert(orig.take(i + 1) =~= orig.take(i as int).push(orig[i as int]));
                assert(u == orig[i as int]);
            }
            let key_is_min = u.id == myself;
            let mut p: usize = 0;
            let len = res.len();
            while p < len && (res[p].id == myself || (key_is_min && res[p].id == i64::MIN) || (!key_is_min && res[p].id <= u.id))
                invariant
                    len == res@.len(),
                    0 <= p <= len,
                    key_is_min == (u.id == myself),
                    forall|q: int| 0 <= q < p ==> user_key(#[trigger] res@[q], myself) <= user_key(u, myself),
                decreases len - p,
            {
                p = p + 1;
            }
            let ghost before = res@;
            proof {
                assert forall|q: int| p <= q < before.len() implies user_key(u, myself) <= user_key(#[trigger] before[q], myself) by {
                    if q > p {
                        assert(user_key(before[p as int], myself) <= user_key(before[q], myself));
                    }
                }
                assert forall|q: int| 0 <= q < before.len() implies (#[trigger] before[q]).id != u.id by {
                    assert(before.contains(before[q]));
                    let t = orig.take(i as int);
                    let a = choose|a: int| 0 <= a < t.len() && t[a] == before[q];
                    assert(orig[a].id != orig[i as int].id);
                }
            }
            res.insert(p, u);
            proof {
                assert(res@ =~= before.insert(p as int, orig[i as int]));
                assert forall|x: User| res@.contains(x) <==> orig.take(i + 1).contains(x) by {
                    if res@.contains(x) {
                        let k = choose|k: int| 0 <= k < res@.len() && res@[k] == x;
                        if k < p {
                            assert(before[k] == x);
                            assert(before.contains(x));
                        } else if k > p {
                            assert(before[k - 1] == x);
                            assert(before.contains(x));
                        } else {
                            assert(orig.take(i + 1)[i as int] == x);
                        }
                    }
                    if orig.take(i + 1).contains(x) {
                        let t = orig.take(i + 1);
                        let k = choose|k: int| 0 <= k < t.len() && t[k] == x;
                        if k < i {
                            assert(orig.take(i as int)[k] == x);
                            assert(before.contains(x));
                            let q = choose|q: int| 0 <= q < before.len() && before[q] == x;
                            if q < p {
                                assert(res@[q] == x);
                            } else {
                                assert(res@[q + 1] == x);
                            }
                        } else {
                            assert(res@[p as int] == x);
                        }
                    }
                }
            }
            i = i + 1;
        }
        proof {
            assert(orig.take(n as int) =~= orig);
        }
        res
    }
}

impl WhatsAppAndroidDataLoader {
    /// The users that take part in the chats (and myself), myself first and the others by
    /// ID. The users are given by their IDs, each once.
    pub fn normalize_users(&self, users: Vec<User>, myself_id: UserId, cwms: &Vec<ChatWithMessages>) -> (r: Vec<User>)
        requires
            forall|i: int, j: int| 0 <= i < j < users@.len() ==> users@[i].id != users@[j].id,
        ensures
            forall|i: int, j: int| 0 <= i < j < r@.len() ==> user_key(r@[i], myself_id.0) <= user_key(r@[j], myself_id.0),
            forall|u: User| r@.contains(u) <==> (users@.contains(u) && user_kept(u, myself_id.0, cwms@)),
            forall|i: int, j: int| 0 <= i < j < r@.len() ==> r@[i].id != r@[j].id,
    {
        let ids = participating_ids(cwms);
        let myself = myself_id.0;
        let ghost orig = users@;
        let n = users.len();
        let mut res: Vec<User> = Vec::new();
        let mut i: usize = 0;
        for u in it: users.into_iter()
            invariant
                i == it.index(),
                it.seq() == orig,
                n == orig.len(),
                forall|a: int, b: int| 0 <= a < b < orig.len() ==> orig[a].id != orig[b].id,
                forall|id: i64| ids@.contains(id) <==> participates(cwms@, id),
                forall|a: int, b: int| 0 <= a < b < res@.len() ==> user_key(res@[a], myself) <= user_key(res@[b], myself),
                forall|x: User| res@.contains(x) <==> (orig.take(i as int).contains(x) && user_kept(x, myself, cwms@)),
                forall|a: int, b: int| 0 <= a < b < res@.len() ==> res@[a].id != res@[b].id,
        {
            proof {
                assert(orig.take(i + 1) =~= orig.take(i as int).push(orig[i as int]));
                assert(u == orig[i as int]);
            }
            if u.id == myself || contains_i64(&ids, u.id) {
                let key_is_min = u.id == myself;
                let mut p: usize = 0;
                let len = res.len();
                while p < len && (res[p].id == myself || (key_is_min && res[p].id == i64::MIN) || (!key_is_min && res[p].id <= u.id))
                    invariant
                        len == res@.len(),
                        0 <= p <= len,
                        key_is_min == (u.id == myself),
                        forall|q: int| 0 <= q < p ==> user_key(#[trigger] res@[q], myself) <= user_key(u, myself),
                    decreases len - p,
                {
                    p = p + 1;
                }
                let ghost before = res@;
                proof {
                    assert forall|q: int| p <= q < before.len() implies user_key(u, myself) <= user_key(#[trigger] before[q], myself) by {
                        if q > p {
                            assert(user_key(before[p as int], myself) <= user_key(before[q], myself));
                        }
                    }
                    assert forall|q: int| 0 <= q < before.len() implies (#[trigger] before[q]).id != u.id by {
                        assert(before.contains(before[q]));
                        let t = orig.take(i as int);
                        let a = choose|a: int| 0 <= a < t.len() && t[a] == before[q];
                        assert(orig[a].id != orig[i as int].id);
                    }
                }
                res.insert(p, u);
                proof {
                    assert(res@ =~= before.insert(p as int, orig[i as int]));
                    assert forall|x: User| res@.contains(x) <==> (orig.take(i + 1).contains(x) && user_kept(x, myself, cwms@)) by {
                        if res@.contains(x) {
                            let k = choose|k: int| 0 <= k < res@.len() && res@[k] == x;
                            if k < p {
                                assert(before[k] == x);
                                assert(before.contains(x));
                            } else if k > p {
                                assert(before[k - 1] == x);
                                assert(before.contains(x));
                            } else {
                                assert(orig.take(i + 1)[i as int] == x);
                            }
                        }
                        if orig.take(i + 1).contains(x) && user_kept(x, myself, cwms@) {
                            let t = orig.take(i + 1);
                            let k = choose|k: int| 0 <= k < t.len() && t[k] == x;
                            if k < i {
                                assert(orig.take(i as int)[k] == x);
                                assert(before.contains(x));
                                let q = choose|q: int| 0 <= q < before.len() && before[q] == x;
                                if q < p {
                                    assert(res@[q] == x);
                                } else {
                                    assert(res@[q + 1] == x);
                                }
                            } else {
                                assert(res@[p as int] == x);
                            }
                        }
                    }
                }
            } else {
                proof {
                    assert forall|x: User| res@.contains(x) <==> (orig.take(i + 1).contains(x) && user_kept(x, myself, cwms@)) by {
                        if orig.take(i + 1).contains(x) && user_kept(x, myself, cwms@) {
                            let t = orig.take(i + 1);
                            let k = choose|k: int| 0 <= k < t.len() && t[k] == x;
                            if k < i {
                                assert(orig.take(i as int)[k] == x);
                            }
                        }
                    }
                }
            }
            i = i + 1;
        }
        proof {
            assert(orig.take(n as int) =~= orig);
        }
        res
    }
}

//
// Phone numbers
//

/// `s` with a leading "00" replaced by "+".
pub open spec fn plus_prefixed(s: Seq<char>) -> Seq<char> {
    if s.len() >= 2 && s[0] == '0' && s[1] == '0' {
        seq!['+'] + s.skip(2)
    } else {
        s
    }
}

/// Whether a character is kept in a phone number that could not be parsed: an ASCII digit or
/// a plus.
pub open spec fn is_phone_char(c: char) -> bool {
    ('0' <= c && c <= '9') || c == '+'
}

/// The characters of `s` that are kept in a phone number that could not be parsed.
pub open spec fn phone_chars(s: Seq<char>) -> Seq<char>
    decreases s.len(),
{
    if s.len() == 0 {
        Seq::empty()
    } else if is_phone_char(s.last()) {
        phone_chars(s.drop_last()).push(s.last())
    } else {
        phone_chars(s.drop_last())
    }
}

/// A phone number normalized: a leading "00" becomes "+", then the number is put in E.164
/// form where it parses, and otherwise stripped of everything but digits and pluses.
pub open spec fn normalized_phone(s: Seq<char>) -> Seq<char> {
    let pn = plus_prefixed(s);
    match e164_of(pn) {
        Some(t) => t,
        None => phone_chars(pn),
    }
}

/// Normalizes a phone number to its E.164 form where possible, otherwise keeps only its
/// digits and pluses.
pub fn normalize_phone_number(s: &str) -> (r: String)
    ensures
        r@ == normalized_phone(s@),
{
    let n = s.unicode_len();
    let pn: String = if n >= 2 && s.get_char(0) == '0' && s.get_char(1) == '0' {
        let mut p = "+".to_owned();
        p.append(s.substring_char(2, n));
        proof {
            reveal_strlit("+");
            assert(p@ =~= plus_prefixed(s@));
        }
        p
    } else {
        s.to_owned()
    };
    match phone_e164(pn.as_str()) {
        Some(t) => t,
        None => {
            let m = pn.as_str().unicode_len();
            let mut out = String::new();
            let mut k: usize = 0;
            while k < m
                invariant
                    m == pn@.len(),
                    k <= m,
                    out@ == phone_chars(pn@.take(k as int)),
                decreases m - k,
            {
                let c = pn.as_str().get_char(k);
                proof {
                    assert(pn@.take(k + 1).drop_last() =~= pn@.take(k as int));
                }
                if ('0' <= c && c <= '9') || c == '+' {
                    out.append(pn.as_str().substring_char(k, k + 1));
                    proof {
                        assert(out@ =~= phone_chars(pn@.take(k + 1)));
                    }
                }
                k = k + 1;
            }
            proof {
                assert(pn@.take(m as int) =~= pn@);
            }
            out
        },
    }
}

//
// Signal
//

/// Value of bytes read as an unsigned little-endian number.
pub open spec fn le_value(b: Seq<u8>) -> nat
    decreases b.len(),
{
    if b.len() == 0 {
        0
    } else {
        b[0] as nat + 256 * le_value(b.drop_first())
    }
}

/// 256 to the power `n`.
pub open spec fn pow256(n: nat) -> nat
    decreases n,
{
    if n == 0 {
        1
    } else {
        256 * pow256((n - 1) as nat)
    }
}

/// The ID a UUID (given by its 16 bytes) stands for: its two halves read as little-endian
/// 64-bit numbers, added with wraparound, and halved, which makes it non-negative.
pub open spec fn uuid_position(b: Seq<u8>) -> int {
    (((le_value(b.subrange(0, 8)) + le_value(b.subrange(8, 16))) % 0x1_0000_0000_0000_0000nat) / 2) as int
}

/// The eight bytes from `start` on, read as a little-endian number.
fn le_u64_at(b: &[u8; 16], start: usize) -> (r: u64)
    requires
        start + 8 <= 16,
    ensures
        r == le_value(b@.subrange(start as int, start + 8)),
{
    proof {
        reveal_with_fuel(pow256, 9);
        assert(pow256(8) == 0x1_0000_0000_0000_0000);
        assert(b@.subrange(start + 8, start + 8) =~= Seq::<u8>::empty());
    }
    let mut v: u64 = 0;
    let mut i: usize = 8;
    while i > 0
        invariant
            start + 8 <= 16,
            b@.len() == 16,
            i <= 8,
            v == le_value(b@.subrange(start + i, start + 8)),
            v < pow256((8 - i) as nat),
            pow256(8) == 0x1_0000_0000_0000_0000,
        decreases i,
    {
        i = i - 1;
        proof {
            assert(b@.subrange(start + i, start + 8).drop_first() =~= b@.subrange(start + i + 1, start + 8));
            assert(pow256((8 - i) as nat) == 256 * pow256((8 - i - 1) as nat));
            if 8 - i < 8 {
                lemma_pow256_grows((8 - i) as nat, 8);
            }
        }
        v = v * 256 + b[start + i] as u64;
    }
    v
}

proof fn lemma_pow256_grows(a: nat, b: nat)
    requires
        a <= b,
    ensures
        pow256(a) <= pow256(b),
    decreases b - a,
{
    if a < b {
        lemma_pow256_grows(a, (b - 1) as nat);
    }
}

/// The non-negative ID a UUID (given by its 16 bytes) stands for, see [`uuid_position`].
pub fn uuid_to_i64_pos(uuid_bytes: &[u8; 16]) -> (r: i64)
    ensures
        r == uuid_position(uuid_bytes@),
        r >= 0,
{
    let lo = le_u64_at(uuid_bytes, 0);
    let hi = le_u64_at(uuid_bytes, 8);
    let sum = lo.wrapping_add(hi);
    ((sum / 2) as i64)
}

} // verus!
