//! Deterministic friendly names (adjective-noun combinations) from a string.
use vstd::prelude::*;
use crate::text::string_of;
use sha2::Digest;
use vstd::utf8::encode_utf8;

verus! {

/// Most words `codename` is asked for by the template filter.
pub const CODENAME_MAX_WORDS: usize = 5;

/// The SHA-256 digest of `data`.
pub uninterp spec fn sha256(data: Seq<u8>) -> Seq<u8>;

/// The medium word list of the `petname` crate: nouns when `nouns` holds,
/// adjectives otherwise.
pub uninterp spec fn petname_medium(nouns: bool) -> Seq<Seq<char>>;

/// Computes SHA-256 with the `sha2` crate; a digest is 32 bytes long.
#[verifier::external_body]
pub(crate) fn sha256_digest(data: &[u8]) -> (r: Vec<u8>)
    ensures
        r@ == sha256(data@),
        r@.len() == 32,
{
    <sha2::Sha256 as Digest>::digest(data).to_vec()
}

/// Copies `petname::Petnames::medium()`'s nouns or adjectives. The crate's
/// build script sorts and deduplicates the word files, whose words are
/// non-empty runs of lowercase ASCII letters, so the list is non-empty, its
/// words are distinct and none holds a `-`.
#[verifier::external_body]
fn medium_words(nouns: bool) -> (r: Vec<String>)
    ensures
        r@.map_values(|w: String| w@) == petname_medium(nouns),
        r@.len() > 0,
        forall|i: int, j: int| 0 <= i < r@.len() && 0 <= j < r@.len() && i != j ==> r@[i]@ != r@[j]@,
        forall|i: int| 0 <= i < r@.len() ==> #[trigger] r@[i]@.len() > 0 && !r@[i]@.contains('-'),
{
    let lists = petname::Petnames::medium();
    let words: &[&str] = if nouns { lists.nouns.as_ref() } else { lists.adjectives.as_ref() };
    words.iter().map(|w| w.to_string()).collect()
}

/// Little-endian bytes of `x`, `n` of them.
pub open spec fn le_bytes(x: nat, n: nat) -> Seq<u8>
    decreases n,
{
    if n == 0 {
        seq![]
    } else {
        seq![(x % 256) as u8] + le_bytes(x / 256, (n - 1) as nat)
    }
}

/// The number whose little-endian bytes are `b`.
pub open spec fn le_value(b: Seq<u8>) -> nat
    decreases b.len(),
{
    if b.len() == 0 {
        0
    } else {
        b[0] as nat + 256 * le_value(b.drop_first())
    }
}

/// The message hashed to pick a word.
pub open spec fn index_message(input: Seq<u8>, position: nat, salt: nat, pool: Seq<u8>) -> Seq<u8> {
    input + seq![0u8] + le_bytes(position, 8) + le_bytes(salt, 8) + pool
}

/// Index into a pool of `len` words for the given position and salt.
pub open spec fn spec_codename_index(input: Seq<u8>, position: nat, salt: nat, pool: Seq<u8>, len: nat) -> nat {
    le_value(sha256(index_message(input, position, salt, pool)).take(8)) % len
}

/// The bytes of `"adjective"`.
pub open spec fn adjective_pool() -> Seq<u8> {
    seq![97u8, 100, 106, 101, 99, 116, 105, 118, 101]
}

/// The bytes of `"noun"`.
pub open spec fn noun_pool() -> Seq<u8> {
    seq![110u8, 111, 117, 110]
}

/// The adjective chosen for `position`, trying salts from `salt` on until a
/// word not yet chosen comes up (or every salt up to the pool size is spent).
pub open spec fn pick_adjective(input: Seq<u8>, position: nat, salt: nat, chosen: Seq<Seq<char>>) -> Seq<char>
    decreases petname_medium(false).len() - salt,
{
    let adjs = petname_medium(false);
    let w = adjs[spec_codename_index(input, position, salt, adjective_pool(), adjs.len()) as int];
    if !chosen.contains(w) || salt >= adjs.len() {
        w
    } else {
        pick_adjective(input, position, salt + 1, chosen)
    }
}

/// The first `n` adjectives of a codename.
pub open spec fn adjectives_for(input: Seq<u8>, n: nat) -> Seq<Seq<char>>
    decreases n,
{
    if n == 0 {
        seq![]
    } else {
        let prev = adjectives_for(input, (n - 1) as nat);
        prev.push(pick_adjective(input, (n - 1) as nat, 0, prev))
    }
}

/// `parts` joined with `-`.
pub open spec fn join_dash(parts: Seq<Seq<char>>) -> Seq<char>
    decreases parts.len(),
{
    if parts.len() == 0 {
        seq![]
    } else if parts.len() == 1 {
        parts[0]
    } else {
        join_dash(parts.drop_last()) + seq!['-'] + parts.last()
    }
}

/// The words of `codename(input, words)`: `words - 1` adjectives, then a noun.
pub open spec fn codename_parts(input: Seq<u8>, words: nat) -> Seq<Seq<char>> {
    let adj_count: nat = if words > 0 { (words - 1) as nat } else { 0 };
    let nouns = petname_medium(true);
    adjectives_for(input, adj_count).push(
        nouns[spec_codename_index(input, adj_count, 0, noun_pool(), nouns.len()) as int],
    )
}

/// The codename of `input` with `words` words.
pub open spec fn spec_codename(input: Seq<u8>, words: nat) -> Seq<char> {
    join_dash(codename_parts(input, words))
}

fn push_le_bytes(out: &mut Vec<u8>, x: u64)
    ensures
        final(out)@ == old(out)@ + le_bytes(x as nat, 8),
{
    let ghost start = out@;
    let mut v = x;
    let mut k: usize = 0;
    while k < 8
        invariant
            k <= 8,
            out@ + le_bytes(v as nat, (8 - k) as nat) == start + le_bytes(x as nat, 8),
        decreases 8 - k,
    {
        assert(le_bytes(v as nat, (8 - k) as nat) == seq![(v % 256) as u8] + le_bytes(
            (v / 256) as nat,
            (8 - k - 1) as nat,
        ));
        out.push((v % 256) as u8);
        v = v / 256;
        k = k + 1;
        assert(out@ + le_bytes(v as nat, (8 - k) as nat) =~= start + le_bytes(x as nat, 8));
    }
    assert(le_bytes(v as nat, 0) =~= seq![]);
    assert(out@ =~= start + le_bytes(x as nat, 8));
}

/// Bound on the value of `k` little-endian bytes.
pub open spec fn byte_bound(k: nat) -> nat
    decreases k,
{
    if k == 0 { 1 } else { 256 * byte_bound((k - 1) as nat) }
}

proof fn lemma_le_value_bound(b: Seq<u8>)
    ensures
        le_value(b) < byte_bound(b.len()),
    decreases b.len(),
{
    if b.len() > 0 {
        lemma_le_value_bound(b.drop_first());
        let r = le_value(b.drop_first());
        let m = byte_bound((b.len() - 1) as nat);
        assert(b[0] as nat + 256 * r < 256 * m) by (nonlinear_arith)
            requires
                r < m,
                b[0] < 256,
        ;
    }
}

proof fn lemma_byte_bound_mono(a: nat, b: nat)
    requires
        a <= b,
    ensures
        byte_bound(a) <= byte_bound(b),
    decreases b,
{
    if a < b {
        lemma_byte_bound_mono(a, (b - 1) as nat);
    }
}

fn le_u64(b: &Vec<u8>) -> (r: u64)
    requires
        b@.len() >= 8,
    ensures
        r == le_value(b@.take(8)),
{
    proof {
        reveal_with_fuel(byte_bound, 9);
    }
    let mut acc: u64 = 0;
    let mut i: usize = 8;
    while i > 0
        invariant
            i <= 8,
            b@.len() >= 8,
            acc as nat == le_value(b@.subrange(i as int, 8)),
        decreases i,
    {
        let ghost rest = b@.subrange(i as int, 8);
        proof {
            lemma_le_value_bound(rest);
            lemma_byte_bound_mono(rest.len(), 7);
            reveal_with_fuel(byte_bound, 8);
            assert(byte_bound(7) == 72057594037927936);
        }
        let byte = b[i - 1];
        assert(b@.subrange(i - 1, 8).drop_first() =~= rest);
        acc = byte as u64 + 256 * acc;
        i = i - 1;
    }
    assert(b@.subrange(0, 8) =~= b@.take(8));
    acc
}

fn codename_index(input: &[u8], position: usize, salt: usize, pool: &[u8], len: usize) -> (r: usize)
    requires
        len > 0,
    ensures
        r as nat == spec_codename_index(input@, position as nat, salt as nat, pool@, len as nat),
        r < len,
{
    let mut msg: Vec<u8> = Vec::new();
    let mut i: usize = 0;
    while i < input.len()
        invariant
            i <= input@.len(),
            msg@ == input@.take(i as int),
        decreases input@.len() - i,
    {
        msg.push(input[i]);
        i = i + 1;
        assert(msg@ =~= input@.take(i as int));
    }
    assert(input@.take(input@.len() as int) =~= input@);
    msg.push(0u8);
    push_le_bytes(&mut msg, position as u64);
    push_le_bytes(&mut msg, salt as u64);
    let ghost before_pool = msg@;
    let mut j: usize = 0;
    while j < pool.len()
        invariant
            j <= pool@.len(),
            msg@ == before_pool + pool@.take(j as int),
        decreases pool@.len() - j,
    {
        msg.push(pool[j]);
        j = j + 1;
        assert(msg@ =~= before_pool + pool@.take(j as int));
    }
    assert(pool@.take(pool@.len() as int) =~= pool@);
    assert(msg@ =~= index_message(input@, position as nat, salt as nat, pool@));
    let digest = sha256_digest(msg.as_slice());
    let v = le_u64(&digest);
    (v % (len as u64)) as usize
}

fn pool_bytes(noun: bool) -> (r: Vec<u8>)
    ensures
        r@ == if noun { noun_pool() } else { adjective_pool() },
{
    let mut v: Vec<u8> = Vec::new();
    if noun {
        v.push(110u8);
        v.push(111u8);
        v.push(117u8);
        v.push(110u8);
        assert(v@ =~= noun_pool());
    } else {
        v.push(97u8);
        v.push(100u8);
        v.push(106u8);
        v.push(101u8);
        v.push(99u8);
        v.push(116u8);
        v.push(105u8);
        v.push(118u8);
        v.push(101u8);
        assert(v@ =~= adjective_pool());
    }
    v
}

fn contains_word(parts: &Vec<String>, w: &String) -> (r: bool)
    ensures
        r == parts@.map_values(|p: String| p@).contains(w@),
{
    let ghost views = parts@.map_values(|p: String| p@);
    let mut i: usize = 0;
    while i < parts.len()
        invariant
            i <= parts@.len(),
            views == parts@.map_values(|p: String| p@),
            forall|j: int| 0 <= j < i ==> parts@[j]@ != w@,
        decreases parts@.len() - i,
    {
        if parts[i] == *w {
            assert(views[i as int] == w@);
            return true;
        }
        i = i + 1;
    }
    assert(!views.contains(w@)) by {
        if views.contains(w@) {
            let j = choose|j: int| 0 <= j < views.len() && views[j] == w@;
            assert(parts@[j]@ == w@);
        }
    }
    false
}

fn join_parts(parts: &Vec<String>) -> (r: String)
    ensures
        r@ == join_dash(parts@.map_values(|p: String| p@)),
{
    let ghost views = parts@.map_values(|p: String| p@);
    let mut out: Vec<char> = Vec::new();
    let mut i: usize = 0;
    while i < parts.len()
        invariant
            i <= parts@.len(),
            views == parts@.map_values(|p: String| p@),
            out@ == join_dash(views.take(i as int)),
        decreases parts@.len() - i,
    {
        let cs = crate::text::chars_of(parts[i].as_str());
        if i > 0 {
            out.push('-');
        }
        let ghost base = out@;
        let mut j: usize = 0;
        while j < cs.len()
            invariant
                j <= cs@.len(),
                out@ == base + cs@.take(j as int),
            decreases cs@.len() - j,
        {
            out.push(cs[j]);
            j = j + 1;
            assert(out@ =~= base + cs@.take(j as int));
        }
        assert(cs@.take(cs@.len() as int) =~= cs@);
        assert(views.take(i + 1).drop_last() =~= views.take(i as int));
        assert(views.take(i + 1).last() == views[i as int]);
        i = i + 1;
        assert(out@ =~= join_dash(views.take(i as int)));
    }
    assert(views.take(parts@.len() as int) =~= views);
    string_of(&out)
}

/// Deterministic friendly name of `input`: one word gives a noun, two give
/// `adjective-noun`, and more add adjectives in front. Words come from the
/// `petname` medium lists and are picked by SHA-256 of the input, the
/// position and a salt, so the result does not depend on the host.
pub fn codename(input: &str, words: usize) -> (r: String)
    ensures
        r@ == spec_codename(encode_utf8(input@), words as nat),
{
    let adjectives = medium_words(false);
    let nouns = medium_words(true);
    let bytes = input.as_bytes();
    let adj_pool = pool_bytes(false);
    let noun_pool_v = pool_bytes(true);
    let adjective_count: usize = if words > 0 { words - 1 } else { 0 };
    let mut parts: Vec<String> = Vec::new();
    let mut position: usize = 0;
    while position < adjective_count
        invariant
            position <= adjective_count,
            adjectives@.map_values(|w: String| w@) == petname_medium(false),
            adjectives@.len() > 0,
            bytes@ == encode_utf8(input@),
            adj_pool@ == adjective_pool(),
            parts@.map_values(|p: String| p@) == adjectives_for(bytes@, position as nat),
        decreases adjective_count - position,
    {
        let ghost chosen = parts@.map_values(|p: String| p@);
        let mut salt: usize = 0;
        loop
            invariant_except_break
                chosen == parts@.map_values(|p: String| p@),
                pick_adjective(bytes@, position as nat, salt as nat, chosen) == pick_adjective(
                    bytes@,
                    position as nat,
                    0,
                    chosen,
                ),
            invariant
                salt <= adjectives@.len(),
                adjectives@.map_values(|w: String| w@) == petname_medium(false),
                adjectives@.len() > 0,
                adj_pool@ == adjective_pool(),
                bytes@ == encode_utf8(input@),
            ensures
                parts@.map_values(|p: String| p@) == chosen.push(
                    pick_adjective(bytes@, position as nat, 0, chosen),
                ),
            decreases adjectives@.len() - salt,
        {
            let index = codename_index(bytes, position, salt, adj_pool.as_slice(), adjectives.len());
            let word = adjectives[index].clone();
            assert(word@ == petname_medium(false)[index as int]);
            if !contains_word(&parts, &word) || salt >= adjectives.len() {
                parts.push(word);
                assert(parts@.map_values(|p: String| p@) =~= chosen.push(
                    pick_adjective(bytes@, position as nat, 0, chosen),
                ));
                break;
            }
            salt = salt + 1;
        }
        position = position + 1;
    }
    let index = codename_index(bytes, adjective_count, 0, noun_pool_v.as_slice(), nouns.len());
    let noun = nouns[index].clone();
    assert(noun@ == petname_medium(true)[index as int]);
    let ghost before = parts@.map_values(|p: String| p@);
    parts.push(noun);
    assert(parts@.map_values(|p: String| p@) =~= codename_parts(bytes@, words as nat));
    join_parts(&parts)
}

/// Number of dashes in `s`.
pub open spec fn dash_count(s: Seq<char>) -> nat
    decreases s.len(),
{
    if s.len() == 0 {
        0
    } else {
        dash_count(s.drop_last()) + if s.last() == '-' { 1nat } else { 0nat }
    }
}

proof fn lemma_dash_count_concat(a: Seq<char>, b: Seq<char>)
    ensures
        dash_count(a + b) == dash_count(a) + dash_count(b),
    decreases b.len(),
{
    if b.len() > 0 {
        lemma_dash_count_concat(a, b.drop_last());
        assert((a + b).drop_last() =~= a + b.drop_last());
    } else {
        assert(a + b =~= a);
    }
}

proof fn lemma_no_dash(s: Seq<char>)
    requires
        !s.contains('-'),
    ensures
        dash_count(s) == 0,
    decreases s.len(),
{
    if s.len() > 0 {
        assert(!s.drop_last().contains('-')) by {
            if s.drop_last().contains('-') {
                let i = choose|i: int| 0 <= i < s.drop_last().len() && s.drop_last()[i] == '-';
                assert(s[i] == '-');
            }
        }
        lemma_no_dash(s.drop_last());
        assert(s.last() != '-') by {
            if s.last() == '-' {
                assert(s[s.len() - 1] == '-');
            }
        }
    }
}

proof fn lemma_join_dashes(parts: Seq<Seq<char>>)
    requires
        parts.len() > 0,
        forall|i: int| 0 <= i < parts.len() ==> !(#[trigger] parts[i]).contains('-'),
    ensures
        dash_count(join_dash(parts)) == parts.len() - 1,
    decreases parts.len(),
{
    if parts.len() == 1 {
        lemma_no_dash(parts[0]);
    } else {
        lemma_join_dashes(parts.drop_last());
        lemma_dash_count_concat(join_dash(parts.drop_last()), seq!['-']);
        lemma_dash_count_concat(join_dash(parts.drop_last()) + seq!['-'], parts.last());
        lemma_no_dash(parts.last());
        assert(dash_count(seq!['-']) == 1) by {
            reveal_with_fuel(dash_count, 2);
            assert(seq!['-'].drop_last() =~= Seq::<char>::empty());
        }
    }
}

proof fn lemma_picked_in_pool(input: Seq<u8>, position: nat, salt: nat, chosen: Seq<Seq<char>>)
    requires
        petname_medium(false).len() > 0,
    ensures
        petname_medium(false).contains(pick_adjective(input, position, salt, chosen)),
    decreases petname_medium(false).len() - salt,
{
    let adjs = petname_medium(false);
    let k = spec_codename_index(input, position, salt, adjective_pool(), adjs.len()) as int;
    let w = adjs[k];
    assert(adjs[k] == w);
    if !(!chosen.contains(w) || salt >= adjs.len()) {
        lemma_picked_in_pool(input, position, salt + 1, chosen);
    }
}

proof fn lemma_adjectives_in_pool(input: Seq<u8>, n: nat)
    requires
        petname_medium(false).len() > 0,
    ensures
        adjectives_for(input, n).len() == n,
        forall|i: int| 0 <= i < n ==> petname_medium(false).contains(#[trigger] adjectives_for(input, n)[i]),
    decreases n,
{
    if n > 0 {
        lemma_adjectives_in_pool(input, (n - 1) as nat);
        let prev = adjectives_for(input, (n - 1) as nat);
        lemma_picked_in_pool(input, (n - 1) as nat, 0, prev);
    }
}

/// A codename of `n >= 1` words has exactly `n - 1` dashes, since no word of
/// the lists holds one.
pub proof fn law_codename_word_count(input: Seq<u8>, n: nat, adjectives: Seq<Seq<char>>, nouns: Seq<Seq<char>>)
    requires
        n >= 1,
        adjectives == petname_medium(false),
        nouns == petname_medium(true),
        adjectives.len() > 0,
        nouns.len() > 0,
        forall|i: int| 0 <= i < adjectives.len() ==> !(#[trigger] adjectives[i]).contains('-'),
        forall|i: int| 0 <= i < nouns.len() ==> !(#[trigger] nouns[i]).contains('-'),
    ensures
        dash_count(spec_codename(input, n)) == n - 1,
{
    let parts = codename_parts(input, n);
    lemma_adjectives_in_pool(input, (n - 1) as nat);
    let k = spec_codename_index(input, (n - 1) as nat, 0, noun_pool(), nouns.len()) as int;
    assert forall|i: int| 0 <= i < parts.len() implies !(#[trigger] parts[i]).contains('-') by {
        if i < n - 1 {
            let w = adjectives_for(input, (n - 1) as nat)[i];
            assert(parts[i] == w);
            assert(adjectives.contains(w));
            let j = choose|j: int| 0 <= j < adjectives.len() && adjectives[j] == w;
            assert(!adjectives[j].contains('-'));
        } else {
            assert(parts[i] == nouns[k]);
        }
    }
    lemma_join_dashes(parts);
}

/// Outcome of the `codename` template filter: the name, or why the word
/// count was refused.
pub fn codename_filter(value: &str, words: Option<u32>) -> (r: Result<String, String>)
    ensures
        ({
            let n: nat = match words {
                Some(k) => k as nat,
                None => 2,
            };
            match r {
                Ok(s) => 1 <= n <= 5 && s@ == spec_codename(encode_utf8(value@), n),
                Err(m) => (n == 0 || n > 5) && m@ == "codename word count must be between 1 and 5"@,
            }
        }),
{
    let n: u32 = match words {
        Some(k) => k,
        None => 2,
    };
    if n == 0 || n > 5 {
        return Err("codename word count must be between 1 and 5".to_owned());
    }
    Ok(codename(value, n as usize))
}

} // verus!
