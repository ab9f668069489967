//! Request signing: the canonical query string, the message that is signed
//! and the two signatures of an authenticated call.

use crate::text::{
    bytes_le, decimal, lemma_decimal_injective, lemma_encode_injective,
    lemma_lex_le_antisymmetric, lemma_lex_le_reflexive, lemma_lex_le_total,
    lemma_lex_le_transitive, lemma_middle_determined, lex_le, text_eq, u64_to_decimal,
};
use base64::Engine;
use hmac::Mac;
use vstd::prelude::*;
use vstd::relations::{sorted_by, total_ordering};
use vstd::seq_lib::{lemma_sorted_unique, to_multiset_build, to_multiset_insert, to_multiset_update};
use vstd::string::*;
use vstd::utf8::encode_utf8;

verus! {

/// The HMAC-SHA256 tag of `message` under `key`.
pub uninterp spec fn spec_hmac_sha256(key: Seq<u8>, message: Seq<u8>) -> Seq<u8>;

/// Computes HMAC-SHA256 with `hmac::Hmac<sha2::Sha256>`: `new_from_slice`
/// (which accepts a key of any length), `update`, `finalize`. The tag is a
/// function of key and message alone and is 32 bytes long, the output size of
/// SHA-256; nothing else is claimed of it.
#[verifier::external_body]
fn hmac_sha256(key: &[u8], message: &[u8]) -> (tag: Vec<u8>)
    ensures
        tag@ == spec_hmac_sha256(key@, message@),
        tag@.len() == 32,
{
    let mut mac = hmac::Hmac::<sha2::Sha256>::new_from_slice(key)
        .expect("HMAC can take key of any size");
    mac.update(message);
    mac.finalize().into_bytes().to_vec()
}

/// The symbol of the standard base64 alphabet for a six-bit value.
pub open spec fn base64_symbol(v: int) -> char {
    if v < 26 {
        (65 + v) as char
    } else if v < 52 {
        (71 + v) as char
    } else if v < 62 {
        (v - 4) as char
    } else if v == 62 {
        '+'
    } else {
        '/'
    }
}

/// Standard base64 with padding: three bytes become four symbols, and a last
/// group of one or two bytes is filled up with `=`.
pub open spec fn base64_standard(bytes: Seq<u8>) -> Seq<char>
    decreases bytes.len(),
{
    if bytes.len() == 0 {
        Seq::empty()
    } else if bytes.len() == 1 {
        let a = bytes[0] as int;
        seq![base64_symbol(a / 4), base64_symbol((a % 4) * 16), '=', '=']
    } else if bytes.len() == 2 {
        let a = bytes[0] as int;
        let b = bytes[1] as int;
        seq![
            base64_symbol(a / 4),
            base64_symbol((a % 4) * 16 + b / 16),
            base64_symbol((b % 16) * 4),
            '=',
        ]
    } else {
        let a = bytes[0] as int;
        let b = bytes[1] as int;
        let c = bytes[2] as int;
        seq![
            base64_symbol(a / 4),
            base64_symbol((a % 4) * 16 + b / 16),
            base64_symbol((b % 16) * 4 + c / 64),
            base64_symbol(c % 64),
        ] + base64_standard(bytes.skip(3))
    }
}

/// Encodes with `base64::engine::general_purpose::STANDARD.encode`: the
/// standard alphabet with padding. The encoder panics where the encoded
/// length does not fit in `usize`, which the precondition leaves out.
#[verifier::external_body]
fn base64_encode(bytes: &[u8]) -> (text: String)
    requires
        (bytes@.len() / 3) * 4 + 4 <= usize::MAX,
    ensures
        text@ == base64_standard(bytes@),
{
    base64::engine::general_purpose::STANDARD.encode(bytes)
}

/// The signature of `message` under `secret`: the base64 text of the
/// HMAC-SHA256 tag over the UTF-8 bytes of both.
pub open spec fn signature_of(secret: Seq<char>, message: Seq<char>) -> Seq<char> {
    base64_standard(spec_hmac_sha256(encode_utf8(secret), encode_utf8(message)))
}

/// Signs `message` with `secret`. A signature is 44 characters long: the
/// base64 text of 32 bytes.
pub fn sign(secret: &str, message: &str) -> (r: String)
    ensures
        r@ == signature_of(secret@, message@),
        r@.len() == 44,
{
    let tag = hmac_sha256(secret.as_bytes(), message.as_bytes());
    proof {
        lemma_base64_length(tag@);
    }
    base64_encode(tag.as_slice())
}

/// The message that an authenticated request signs: the timestamp in
/// decimal, the method, the path and the canonical query string, with nothing
/// between them.
pub open spec fn string_to_sign(
    timestamp: u64,
    method: Seq<char>,
    endpoint: Seq<char>,
    query: Seq<char>,
) -> Seq<char> {
    decimal(timestamp as nat) + method + endpoint + query
}

/// Builds the message that an authenticated request signs.
pub fn build_string_to_sign(timestamp: u64, method: &str, endpoint: &str, query: &str) -> (r:
    String)
    ensures
        r@ == string_to_sign(timestamp, method@, endpoint@, query@),
{
    let mut s = u64_to_decimal(timestamp);
    s.append(method);
    s.append(endpoint);
    s.append(query);
    s
}

/// A query parameter as mathematics: its key and its value.
pub open spec fn param_view(p: (String, String)) -> (Seq<char>, Seq<char>) {
    (p.0@, p.1@)
}

/// A parameter list as mathematics.
pub open spec fn params_view(v: Seq<(String, String)>) -> Seq<(Seq<char>, Seq<char>)> {
    Seq::new(v.len(), |i: int| param_view(v[i]))
}

/// The order of the canonical query string: by key, in the byte order of
/// strings; two parameters with one key, which a well-formed request never
/// has, are ordered by value.
pub open spec fn param_le(p: (Seq<char>, Seq<char>), q: (Seq<char>, Seq<char>)) -> bool {
    if p.0 == q.0 {
        lex_le(encode_utf8(p.1), encode_utf8(q.1))
    } else {
        lex_le(encode_utf8(p.0), encode_utf8(q.0))
    }
}

/// `param_le` as a relation.
pub open spec fn param_order() -> spec_fn((Seq<char>, Seq<char>), (Seq<char>, Seq<char>)) -> bool {
    |p: (Seq<char>, Seq<char>), q: (Seq<char>, Seq<char>)| param_le(p, q)
}

proof fn lemma_param_le_antisymmetric(p: (Seq<char>, Seq<char>), q: (Seq<char>, Seq<char>))
    requires
        param_le(p, q),
        param_le(q, p),
    ensures
        p == q,
{
    if p.0 == q.0 {
        let a = encode_utf8(p.1);
        let b = encode_utf8(q.1);
        assert(a.subrange(0, 0) =~= b.subrange(0, 0));
        lemma_lex_le_antisymmetric(a, b, 0);
        lemma_encode_injective(p.1, q.1);
    } else {
        let a = encode_utf8(p.0);
        let b = encode_utf8(q.0);
        assert(a.subrange(0, 0) =~= b.subrange(0, 0));
        lemma_lex_le_antisymmetric(a, b, 0);
        lemma_encode_injective(p.0, q.0);
    }
}

proof fn lemma_param_le_transitive(
    p: (Seq<char>, Seq<char>),
    q: (Seq<char>, Seq<char>),
    r: (Seq<char>, Seq<char>),
)
    requires
        param_le(p, q),
        param_le(q, r),
    ensures
        param_le(p, r),
{
    let kp = encode_utf8(p.0);
    let kq = encode_utf8(q.0);
    let kr = encode_utf8(r.0);
    lemma_lex_le_reflexive(kq, 0);
    if p.0 == q.0 && q.0 == r.0 {
        lemma_lex_le_transitive(encode_utf8(p.1), encode_utf8(q.1), encode_utf8(r.1), 0);
    } else if p.0 == r.0 {
        // the keys of p and q would be equal
        assert(lex_le(kp, kq) && lex_le(kq, kp));
        assert(kp.subrange(0, 0) =~= kq.subrange(0, 0));
        lemma_lex_le_antisymmetric(kp, kq, 0);
        lemma_encode_injective(p.0, q.0);
    } else {
        lemma_lex_le_transitive(kp, kq, kr, 0);
    }
}

proof fn lemma_param_le_total(p: (Seq<char>, Seq<char>), q: (Seq<char>, Seq<char>))
    ensures
        param_le(p, q) || param_le(q, p),
{
    lemma_lex_le_total(encode_utf8(p.1), encode_utf8(q.1), 0);
    lemma_lex_le_total(encode_utf8(p.0), encode_utf8(q.0), 0);
}

/// `param_le` is a total order on parameters.
pub proof fn lemma_param_order_total()
    ensures
        total_ordering(param_order()),
{
    let r = param_order();
    assert forall|p: (Seq<char>, Seq<char>)| #[trigger] r(p, p) by {
        lemma_lex_le_reflexive(encode_utf8(p.1), 0);
    }
    assert forall|p: (Seq<char>, Seq<char>), q: (Seq<char>, Seq<char>)|
        #[trigger] r(p, q) && #[trigger] r(q, p) implies p == q by {
        lemma_param_le_antisymmetric(p, q);
    }
    assert forall|p: (Seq<char>, Seq<char>), q: (Seq<char>, Seq<char>), t: (Seq<char>, Seq<char>)|
        #[trigger] r(p, q) && #[trigger] r(q, t) implies r(p, t) by {
        lemma_param_le_transitive(p, q, t);
    }
    assert forall|p: (Seq<char>, Seq<char>), q: (Seq<char>, Seq<char>)|
        #[trigger] r(p, q) || #[trigger] r(q, p) by {
        lemma_param_le_total(p, q);
    }
}

fn param_le_exec(p: &(String, String), q: &(String, String)) -> (r: bool)
    ensures
        r == param_le(param_view(*p), param_view(*q)),
{
    if p.0 == q.0 {
        bytes_le(p.1.as_str().as_bytes(), q.1.as_str().as_bytes())
    } else {
        bytes_le(p.0.as_str().as_bytes(), q.0.as_str().as_bytes())
    }
}

/// The parameters in canonical order: sorted by key.
pub fn sorted_params(params: &Vec<(String, String)>) -> (out: Vec<(String, String)>)
    ensures
        params_view(out@) == params_view(params@).sort_by(param_order()),
{
    let ghost all = params_view(params@);
    let mut out: Vec<(String, String)> = Vec::new();
    let mut i: usize = 0;
    assert(params_view(out@).to_multiset() =~= all.take(0).to_multiset()) by {
        assert(params_view(out@) =~= all.take(0));
    }
    while i < params.len()
        invariant
            all == params_view(params@),
            i <= params@.len(),
            sorted_by(params_view(out@), param_order()),
            params_view(out@).to_multiset() == all.take(i as int).to_multiset(),
        decreases params@.len() - i,
    {
        let item = (params[i].0.clone(), params[i].1.clone());
        let ghost iv = param_view(item);
        assert(iv == all[i as int]);
        let mut pos: usize = 0;
        while pos < out.len() && param_le_exec(&out[pos], &item)
            invariant
                pos <= out@.len(),
                iv == param_view(item),
                forall|k: int| 0 <= k < pos ==> param_le(#[trigger] params_view(out@)[k], iv),
            decreases out@.len() - pos,
        {
            pos = pos + 1;
        }
        let ghost before = params_view(out@);
        out.insert(pos, item);
        proof {
            let after = params_view(out@);
            assert(after =~= before.insert(pos as int, iv));
            assert forall|a: int, b: int| 0 <= a < b < after.len() implies param_le(
                after[a],
                after[b],
            ) by {
                if b == pos {
                    assert(after[a] == before[a]);
                } else if a == pos {
                    assert(after[b] == before[b - 1]);
                    assert(!param_le(before[pos as int], iv));
                    lemma_param_le_total(before[pos as int], iv);
                    if b - 1 > pos {
                        assert(param_order()(before[pos as int], before[b - 1]));
                        lemma_param_le_transitive(iv, before[pos as int], before[b - 1]);
                    }
                } else {
                    let a0 = if a < pos { a } else { a - 1 };
                    let b0 = if b < pos { b } else { b - 1 };
                    assert(after[a] == before[a0]);
                    assert(after[b] == before[b0]);
                    assert(param_order()(before[a0], before[b0]));
                }
            }
            assert(sorted_by(after, param_order()));
            to_multiset_insert(before, pos as int, iv);
            assert(all.take(i as int + 1) =~= all.take(i as int).push(iv));
            to_multiset_build(all.take(i as int), iv);
        }
        i = i + 1;
    }
    proof {
        assert(all.take(i as int) =~= all);
        lemma_param_order_total();
        all.lemma_sort_by_ensures(param_order());
        lemma_sorted_unique(params_view(out@), all.sort_by(param_order()), param_order());
    }
    out
}

/// Joins parameters as `key=value`, with `&` between them.
pub open spec fn join_params(s: Seq<(Seq<char>, Seq<char>)>) -> Seq<char>
    decreases s.len(),
{
    if s.len() == 0 {
        Seq::empty()
    } else if s.len() == 1 {
        s[0].0 + seq!['='] + s[0].1
    } else {
        join_params(s.drop_last()) + seq!['&'] + s.last().0 + seq!['='] + s.last().1
    }
}

/// The canonical query string of a parameter list: the parameters sorted by
/// key and joined as `key=value` with `&`.
pub open spec fn canonical_query(params: Seq<(Seq<char>, Seq<char>)>) -> Seq<char> {
    join_params(params.sort_by(param_order()))
}

/// Joins parameters, in the order given, as `key=value` with `&`.
pub fn join_query(params: &Vec<(String, String)>) -> (r: String)
    ensures
        r@ == join_params(params_view(params@)),
{
    let ghost all = params_view(params@);
    let mut text = String::new();
    let mut i: usize = 0;
    assert(all.take(0) =~= Seq::empty());
    while i < params.len()
        invariant
            all == params_view(params@),
            i <= params@.len(),
            text@ == join_params(all.take(i as int)),
        decreases params@.len() - i,
    {
        proof {
            reveal_strlit("&");
            reveal_strlit("=");
            let next = all.take(i as int + 1);
            assert(next.drop_last() =~= all.take(i as int));
            assert(next.last() == param_view(params@[i as int]));
        }
        let ghost prior = text@;
        if i > 0 {
            text.append("&");
        }
        let pair = &params[i];
        text.append(pair.0.as_str());
        text.append("=");
        text.append(pair.1.as_str());
        proof {
            if i == 0 {
                assert(text@ =~= pair.0@ + seq!['='] + pair.1@);
            } else {
                assert(text@ =~= prior + seq!['&'] + pair.0@ + seq!['='] + pair.1@);
            }
        }
        i = i + 1;
    }
    assert(all.take(i as int) =~= all);
    text
}

/// Builds the canonical query string of a parameter list.
pub fn canonical_query_string(params: &Vec<(String, String)>) -> (r: String)
    ensures
        r@ == canonical_query(params_view(params@)),
{
    let sorted = sorted_params(params);
    join_query(&sorted)
}

/// Two parameter lists that hold the same pairs, whatever the order in which
/// they were put in, have one canonical query string, so that a request signs
/// identically under both.
pub proof fn lemma_signature_ignores_insertion_order(
    secret: Seq<char>,
    timestamp: u64,
    method: Seq<char>,
    endpoint: Seq<char>,
    first: Seq<(Seq<char>, Seq<char>)>,
    second: Seq<(Seq<char>, Seq<char>)>,
)
    requires
        first.to_multiset() == second.to_multiset(),
    ensures
        canonical_query(first) == canonical_query(second),
        signature_of(secret, string_to_sign(timestamp, method, endpoint, canonical_query(first)))
            == signature_of(
            secret,
            string_to_sign(timestamp, method, endpoint, canonical_query(second)),
        ),
{
    lemma_param_order_total();
    first.lemma_sort_by_ensures(param_order());
    second.lemma_sort_by_ensures(param_order());
    lemma_sorted_unique(
        first.sort_by(param_order()),
        second.sort_by(param_order()),
        param_order(),
    );
}

/// The canonical order puts keys in ascending byte order.
pub proof fn lemma_canonical_order_by_key(params: Seq<(Seq<char>, Seq<char>)>)
    ensures
        forall|i: int, j: int|
            0 <= i < j < params.len() ==> lex_le(
                encode_utf8(#[trigger] params.sort_by(param_order())[i].0),
                encode_utf8(#[trigger] params.sort_by(param_order())[j].0),
            ),
        params.sort_by(param_order()).to_multiset() == params.to_multiset(),
{
    lemma_param_order_total();
    params.lemma_sort_by_ensures(param_order());
    let s = params.sort_by(param_order());
    assert(s.len() == params.len()) by {
        s.to_multiset_ensures();
        params.to_multiset_ensures();
    }
    assert forall|i: int, j: int| 0 <= i < j < params.len() implies lex_le(
        encode_utf8(#[trigger] s[i].0),
        encode_utf8(#[trigger] s[j].0),
    ) by {
        assert(param_order()(s[i], s[j]));
        lemma_lex_le_reflexive(encode_utf8(s[i].0), 0);
    }
}

/// Sorting no parameters gives no parameters.
pub proof fn lemma_sort_nothing()
    ensures
        Seq::<(Seq<char>, Seq<char>)>::empty().sort_by(param_order()) == Seq::<
            (Seq<char>, Seq<char>),
        >::empty(),
{
    let none = Seq::<(Seq<char>, Seq<char>)>::empty();
    lemma_param_order_total();
    none.lemma_sort_by_ensures(param_order());
    none.sort_by(param_order()).to_multiset_ensures();
    none.to_multiset_ensures();
    assert(none.sort_by(param_order()) =~= none);
}

/// The length of a base64 text: four symbols for every three bytes begun.
pub proof fn lemma_base64_length(bytes: Seq<u8>)
    ensures
        base64_standard(bytes).len() == 4 * ((bytes.len() + 2) / 3),
    decreases bytes.len(),
{
    if bytes.len() >= 3 {
        lemma_base64_length(bytes.skip(3));
    }
}

proof fn lemma_symbol_injective(x: int, y: int)
    requires
        0 <= x < 64,
        0 <= y < 64,
        base64_symbol(x) == base64_symbol(y),
    ensures
        x == y,
{
}

proof fn lemma_symbol_is_no_padding(x: int)
    requires
        0 <= x < 64,
    ensures
        base64_symbol(x) != '=',
{
}

/// The first group of a base64 text: its four symbols, by the number of
/// bytes that the group holds.
proof fn lemma_base64_first_group(bytes: Seq<u8>)
    requires
        bytes.len() > 0,
    ensures
        base64_standard(bytes).len() >= 4,
        base64_standard(bytes)[0] == base64_symbol(bytes[0] as int / 4),
        bytes.len() == 1 ==> base64_standard(bytes)[1] == base64_symbol(
            (bytes[0] as int % 4) * 16,
        ) && base64_standard(bytes)[2] == '=' && base64_standard(bytes)[3] == '=',
        bytes.len() >= 2 ==> base64_standard(bytes)[1] == base64_symbol(
            (bytes[0] as int % 4) * 16 + bytes[1] as int / 16,
        ),
        bytes.len() == 2 ==> base64_standard(bytes)[2] == base64_symbol(
            (bytes[1] as int % 16) * 4,
        ) && base64_standard(bytes)[3] == '=',
        bytes.len() >= 3 ==> base64_standard(bytes)[2] == base64_symbol(
            (bytes[1] as int % 16) * 4 + bytes[2] as int / 64,
        ) && base64_standard(bytes)[3] == base64_symbol(bytes[2] as int % 64)
            && base64_standard(bytes).subrange(4, base64_standard(bytes).len() as int)
            == base64_standard(bytes.skip(3)),
{
    if bytes.len() >= 3 {
        let text = base64_standard(bytes);
        assert(text.subrange(4, text.len() as int) =~= base64_standard(bytes.skip(3)));
    }
}

/// Base64 loses nothing: two byte sequences with one base64 text are equal.
pub proof fn lemma_base64_injective(a: Seq<u8>, b: Seq<u8>)
    requires
        base64_standard(a) == base64_standard(b),
    ensures
        a == b,
    decreases a.len(),
{
    lemma_base64_length(a);
    lemma_base64_length(b);
    if a.len() == 0 || b.len() == 0 {
        assert(a.len() == 0 && b.len() == 0);
        assert(a =~= b);
    } else {
        lemma_base64_first_group(a);
        lemma_base64_first_group(b);
        let a0 = a[0] as int;
        let b0 = b[0] as int;
        lemma_symbol_injective(a0 / 4, b0 / 4);
        if a.len() == 1 {
            if b.len() >= 2 {
                lemma_symbol_is_no_padding(
                    if b.len() == 2 {
                        (b[1] as int % 16) * 4
                    } else {
                        (b[1] as int % 16) * 4 + b[2] as int / 64
                    },
                );
            }
            lemma_symbol_injective((a0 % 4) * 16, (b0 % 4) * 16);
            assert(a =~= b);
        } else if b.len() == 1 {
            lemma_symbol_is_no_padding(
                if a.len() == 2 {
                    (a[1] as int % 16) * 4
                } else {
                    (a[1] as int % 16) * 4 + a[2] as int / 64
                },
            );
        } else {
            let a1 = a[1] as int;
            let b1 = b[1] as int;
            lemma_symbol_injective((a0 % 4) * 16 + a1 / 16, (b0 % 4) * 16 + b1 / 16);
            assert(a0 == b0);
            if a.len() == 2 {
                if b.len() >= 3 {
                    lemma_symbol_is_no_padding(b[2] as int % 64);
                }
                lemma_symbol_injective((a1 % 16) * 4, (b1 % 16) * 4);
                assert(a1 == b1);
                assert(a =~= b);
            } else if b.len() == 2 {
                lemma_symbol_is_no_padding(a[2] as int % 64);
            } else {
                let a2 = a[2] as int;
                let b2 = b[2] as int;
                lemma_symbol_injective((a1 % 16) * 4 + a2 / 64, (b1 % 16) * 4 + b2 / 64);
                lemma_symbol_injective(a2 % 64, b2 % 64);
                assert(a1 == b1);
                assert(a2 == b2);
                lemma_base64_injective(a.skip(3), b.skip(3));
                assert(a =~= a.take(3) + a.skip(3));
                assert(b =~= b.take(3) + b.skip(3));
                assert(a.take(3) =~= b.take(3));
            }
        }
    }
}

/// HMAC-SHA256 taken as free of collisions on two inputs: where the key bytes
/// or the message bytes differ, the tags differ. Nothing in this library
/// claims it. It fails for two keys that differ only in zero bytes at the
/// end, which the algorithm fills up to one key.
pub open spec fn tags_tell_apart(
    first_key: Seq<u8>,
    first_message: Seq<u8>,
    second_key: Seq<u8>,
    second_message: Seq<u8>,
) -> bool {
    first_key != second_key || first_message != second_message ==> spec_hmac_sha256(
        first_key,
        first_message,
    ) != spec_hmac_sha256(second_key, second_message)
}

/// Two signatures are equal only where the two tags are: what could make two
/// requests sign alike is a collision of HMAC-SHA256, nothing that this
/// library adds.
pub proof fn lemma_signatures_equal_only_with_tags(
    first_secret: Seq<char>,
    first_message: Seq<char>,
    second_secret: Seq<char>,
    second_message: Seq<char>,
)
    ensures
        signature_of(first_secret, first_message) == signature_of(second_secret, second_message)
            ==> spec_hmac_sha256(encode_utf8(first_secret), encode_utf8(first_message))
            == spec_hmac_sha256(encode_utf8(second_secret), encode_utf8(second_message)),
{
    if signature_of(first_secret, first_message) == signature_of(second_secret, second_message) {
        lemma_base64_injective(
            spec_hmac_sha256(encode_utf8(first_secret), encode_utf8(first_message)),
            spec_hmac_sha256(encode_utf8(second_secret), encode_utf8(second_message)),
        );
    }
}

/// The signature changes with each input, HMAC-SHA256 taken as free of
/// collisions: two requests that differ in one of timestamp, method, path and
/// query string, and agree in the other three, have different signatures
/// under one secret, and one request has different signatures under two
/// different secrets.
pub proof fn lemma_signature_changes_with_each_input(
    first: (u64, Seq<char>, Seq<char>, Seq<char>),
    second: (u64, Seq<char>, Seq<char>, Seq<char>),
    first_secret: Seq<char>,
    second_secret: Seq<char>,
)
    requires
        first != second,
        (first.1 == second.1 && first.2 == second.2 && first.3 == second.3) || (first.0 == second.0
            && first.2 == second.2 && first.3 == second.3) || (first.0 == second.0 && first.1
            == second.1 && first.3 == second.3) || (first.0 == second.0 && first.1 == second.1
            && first.2 == second.2),
    ensures
        tags_tell_apart(
            encode_utf8(first_secret),
            encode_utf8(string_to_sign(first.0, first.1, first.2, first.3)),
            encode_utf8(first_secret),
            encode_utf8(string_to_sign(second.0, second.1, second.2, second.3)),
        ) ==> signature_of(first_secret, string_to_sign(first.0, first.1, first.2, first.3))
            != signature_of(first_secret, string_to_sign(second.0, second.1, second.2, second.3)),
        first_secret != second_secret && tags_tell_apart(
            encode_utf8(first_secret),
            encode_utf8(string_to_sign(first.0, first.1, first.2, first.3)),
            encode_utf8(second_secret),
            encode_utf8(string_to_sign(first.0, first.1, first.2, first.3)),
        ) ==> signature_of(first_secret, string_to_sign(first.0, first.1, first.2, first.3))
            != signature_of(second_secret, string_to_sign(first.0, first.1, first.2, first.3)),
{
    let one = string_to_sign(first.0, first.1, first.2, first.3);
    let other = string_to_sign(second.0, second.1, second.2, second.3);
    lemma_signed_bytes_change_with_each_input(first, second, first_secret, second_secret);
    lemma_signatures_equal_only_with_tags(first_secret, one, first_secret, other);
    lemma_signatures_equal_only_with_tags(first_secret, one, second_secret, one);
}

/// The signed message tells requests apart: two requests that differ in one
/// of timestamp, method, path and query string, and agree in the other
/// three, sign different bytes. Two different secrets are different keys.
/// Whether the tags then differ is a matter of HMAC-SHA256, of which nothing
/// is claimed here.
pub proof fn lemma_signed_bytes_change_with_each_input(
    first: (u64, Seq<char>, Seq<char>, Seq<char>),
    second: (u64, Seq<char>, Seq<char>, Seq<char>),
    first_secret: Seq<char>,
    second_secret: Seq<char>,
)
    requires
        first != second,
        (first.1 == second.1 && first.2 == second.2 && first.3 == second.3) || (first.0 == second.0
            && first.2 == second.2 && first.3 == second.3) || (first.0 == second.0 && first.1
            == second.1 && first.3 == second.3) || (first.0 == second.0 && first.1 == second.1
            && first.2 == second.2),
    ensures
        encode_utf8(string_to_sign(first.0, first.1, first.2, first.3)) != encode_utf8(
            string_to_sign(second.0, second.1, second.2, second.3),
        ),
        first_secret != second_secret ==> encode_utf8(first_secret) != encode_utf8(second_secret),
{
    let a = string_to_sign(first.0, first.1, first.2, first.3);
    let b = string_to_sign(second.0, second.1, second.2, second.3);
    let none = Seq::<char>::empty();
    if a == b {
        let t1 = decimal(first.0 as nat);
        let t2 = decimal(second.0 as nat);
        if first.1 == second.1 && first.2 == second.2 && first.3 == second.3 {
            let rest = first.1 + first.2 + first.3;
            assert(a =~= none + t1 + rest);
            assert(b =~= none + t2 + rest);
            lemma_middle_determined(none, t1, t2, rest);
            lemma_decimal_injective(first.0 as nat, second.0 as nat);
        } else if first.0 == second.0 && first.2 == second.2 && first.3 == second.3 {
            let rest = first.2 + first.3;
            assert(a =~= t1 + first.1 + rest);
            assert(b =~= t1 + second.1 + rest);
            lemma_middle_determined(t1, first.1, second.1, rest);
        } else if first.0 == second.0 && first.1 == second.1 && first.3 == second.3 {
            let head = t1 + first.1;
            assert(a =~= head + first.2 + first.3);
            assert(b =~= head + second.2 + first.3);
            lemma_middle_determined(head, first.2, second.2, first.3);
        } else {
            let head = t1 + first.1 + first.2;
            assert(a =~= head + first.3 + none);
            assert(b =~= head + second.3 + none);
            lemma_middle_determined(head, first.3, second.3, none);
        }
        assert(first == second);
    }
    if encode_utf8(a) == encode_utf8(b) {
        lemma_encode_injective(a, b);
    }
    if encode_utf8(first_secret) == encode_utf8(second_secret) {
        lemma_encode_injective(first_secret, second_secret);
    }
}

/// No key occurs twice: what a well-formed request's parameters satisfy.
pub open spec fn keys_unique(params: Seq<(Seq<char>, Seq<char>)>) -> bool {
    forall|i: int, j: int| 0 <= i < j < params.len() ==> params[i].0 != params[j].0
}

/// A list without parameters has no key twice.
pub proof fn lemma_no_keys_are_unique()
    ensures
        keys_unique(Seq::<(Seq<char>, Seq<char>)>::empty()),
{
}

/// Whether no key occurs twice in a parameter list.
pub fn keys_are_unique(params: &Vec<(String, String)>) -> (r: bool)
    ensures
        r == keys_unique(params_view(params@)),
{
    let ghost all = params_view(params@);
    let mut j: usize = 0;
    while j < params.len()
        invariant
            all == params_view(params@),
            j <= params@.len(),
            forall|a: int, b: int| 0 <= a < b < j ==> all[a].0 != all[b].0,
        decreases params@.len() - j,
    {
        let mut i: usize = 0;
        while i < j
            invariant
                all == params_view(params@),
                i <= j < params@.len(),
                forall|a: int| 0 <= a < i ==> all[a].0 != all[j as int].0,
            decreases j - i,
        {
            if text_eq(params[i].0.as_str(), params[j].0.as_str()) {
                assert(all[i as int].0 == all[j as int].0);
                return false;
            }
            i = i + 1;
        }
        j = j + 1;
    }
    true
}

proof fn lemma_join_value_changes(s: Seq<(Seq<char>, Seq<char>)>, j: int, value: Seq<char>)
    requires
        0 <= j < s.len(),
        value != s[j].1,
    ensures
        join_params(s.update(j, (s[j].0, value))) != join_params(s),
    decreases s.len(),
{
    let t = s.update(j, (s[j].0, value));
    let none = Seq::<char>::empty();
    if join_params(t) == join_params(s) {
        if s.len() == 1 {
            let head = s[0].0 + seq!['='];
            assert(join_params(s) =~= head + s[0].1 + none);
            assert(join_params(t) =~= head + value + none);
            lemma_middle_determined(head, s[0].1, value, none);
        } else if j == s.len() - 1 {
            assert(t.drop_last() =~= s.drop_last());
            let head = join_params(s.drop_last()) + seq!['&'] + s.last().0 + seq!['='];
            assert(join_params(s) =~= head + s.last().1 + none);
            assert(join_params(t) =~= head + value + none);
            lemma_middle_determined(head, s.last().1, value, none);
        } else {
            assert(t.last() == s.last());
            assert(t.drop_last() =~= s.drop_last().update(j, (s[j].0, value)));
            let tail = seq!['&'] + s.last().0 + seq!['='] + s.last().1;
            assert(join_params(s) =~= none + join_params(s.drop_last()) + tail);
            assert(join_params(t) =~= none + join_params(t.drop_last()) + tail);
            lemma_middle_determined(
                none,
                join_params(s.drop_last()),
                join_params(t.drop_last()),
                tail,
            );
            lemma_join_value_changes(s.drop_last(), j, value);
        }
    }
}

proof fn lemma_sort_keeps_keys_unique(params: Seq<(Seq<char>, Seq<char>)>)
    requires
        keys_unique(params),
    ensures
        params.sort_by(param_order()).len() == params.len(),
        forall|a: int, b: int|
            0 <= a < params.len() && 0 <= b < params.len() && a != b ==> params.sort_by(
                param_order(),
            )[a].0 != params.sort_by(param_order())[b].0,
{
    let s = params.sort_by(param_order());
    lemma_param_order_total();
    params.lemma_sort_by_ensures(param_order());
    s.to_multiset_ensures();
    params.to_multiset_ensures();
    assert(params.no_duplicates()) by {
        assert forall|i: int, j: int|
            0 <= i < params.len() && 0 <= j < params.len() && i != j implies params[i]
            != params[j] by {
            if i < j {
                assert(params[i].0 != params[j].0);
            } else {
                assert(params[j].0 != params[i].0);
            }
        }
    }
    params.lemma_multiset_has_no_duplicates();
    s.lemma_multiset_has_no_duplicates_conv();
    assert forall|a: int, b: int| 0 <= a < s.len() && 0 <= b < s.len() && a != b implies s[a].0
        != s[b].0 by {
        assert(s.contains(s[a]));
        assert(s.contains(s[b]));
        assert(params.to_multiset().count(s[a]) > 0);
        assert(params.to_multiset().count(s[b]) > 0);
        assert(params.contains(s[a]));
        assert(params.contains(s[b]));
        let u = params.index_of(s[a]);
        let v = params.index_of(s[b]);
        assert(s[a] != s[b]);
        if u < v {
            assert(params[u].0 != params[v].0);
        } else {
            assert(params[v].0 != params[u].0);
        }
    }
}

proof fn lemma_sort_follows_value_change(
    params: Seq<(Seq<char>, Seq<char>)>,
    i: int,
    value: Seq<char>,
) -> (j: int)
    requires
        keys_unique(params),
        0 <= i < params.len(),
    ensures
        0 <= j < params.sort_by(param_order()).len(),
        params.sort_by(param_order())[j] == params[i],
        params.update(i, (params[i].0, value)).sort_by(param_order()) == params.sort_by(
            param_order(),
        ).update(j, (params[i].0, value)),
{
    let order = param_order();
    let s = params.sort_by(order);
    lemma_param_order_total();
    params.lemma_sort_by_ensures(order);
    lemma_sort_keeps_keys_unique(params);
    s.to_multiset_ensures();
    params.to_multiset_ensures();
    assert(params.contains(params[i]));
    assert(s.to_multiset().count(params[i]) > 0);
    assert(s.contains(params[i]));
    let j = s.index_of(params[i]);
    let changed = (params[i].0, value);
    let q = params.update(i, changed);
    let t = s.update(j, changed);
    to_multiset_update(params, i, changed);
    to_multiset_update(s, j, changed);
    assert forall|a: int, b: int| 0 <= a < b < t.len() implies order(t[a], t[b]) by {
        assert(order(s[a], s[b]));
        assert(s[a].0 != s[b].0);
    }
    q.lemma_sort_by_ensures(order);
    lemma_sorted_unique(t, q.sort_by(order), order);
    j
}

/// Another value for one query parameter gives another canonical query
/// string, and with it other signed bytes, whatever the rest of the request.
pub proof fn lemma_query_value_changes_signed_bytes(
    timestamp: u64,
    method: Seq<char>,
    endpoint: Seq<char>,
    params: Seq<(Seq<char>, Seq<char>)>,
    i: int,
    value: Seq<char>,
)
    requires
        keys_unique(params),
        0 <= i < params.len(),
        value != params[i].1,
    ensures
        canonical_query(params.update(i, (params[i].0, value))) != canonical_query(params),
        encode_utf8(
            string_to_sign(
                timestamp,
                method,
                endpoint,
                canonical_query(params.update(i, (params[i].0, value))),
            ),
        ) != encode_utf8(string_to_sign(timestamp, method, endpoint, canonical_query(params))),
{
    let j = lemma_sort_follows_value_change(params, i, value);
    lemma_join_value_changes(params.sort_by(param_order()), j, value);
    let none = Seq::<char>::empty();
    lemma_signed_bytes_change_with_each_input(
        (timestamp, method, endpoint, canonical_query(params.update(i, (params[i].0, value)))),
        (timestamp, method, endpoint, canonical_query(params)),
        none,
        none,
    );
}

/// Another value for one query parameter gives another signature, HMAC-SHA256
/// taken as free of collisions.
pub proof fn lemma_query_value_changes_signature(
    secret: Seq<char>,
    timestamp: u64,
    method: Seq<char>,
    endpoint: Seq<char>,
    params: Seq<(Seq<char>, Seq<char>)>,
    i: int,
    value: Seq<char>,
)
    requires
        keys_unique(params),
        0 <= i < params.len(),
        value != params[i].1,
    ensures
        tags_tell_apart(
            encode_utf8(secret),
            encode_utf8(
                string_to_sign(
                    timestamp,
                    method,
                    endpoint,
                    canonical_query(params.update(i, (params[i].0, value))),
                ),
            ),
            encode_utf8(secret),
            encode_utf8(string_to_sign(timestamp, method, endpoint, canonical_query(params))),
        ) ==> signature_of(
            secret,
            string_to_sign(
                timestamp,
                method,
                endpoint,
                canonical_query(params.update(i, (params[i].0, value))),
            ),
        ) != signature_of(
            secret,
            string_to_sign(timestamp, method, endpoint, canonical_query(params)),
        ),
{
    lemma_query_value_changes_signed_bytes(timestamp, method, endpoint, params, i, value);
    lemma_signatures_equal_only_with_tags(
        secret,
        string_to_sign(
            timestamp,
            method,
            endpoint,
            canonical_query(params.update(i, (params[i].0, value))),
        ),
        secret,
        string_to_sign(timestamp, method, endpoint, canonical_query(params)),
    );
}

} // verus!
