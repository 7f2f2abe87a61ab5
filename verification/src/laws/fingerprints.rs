//! Fingerprints tell findings apart by rule, file and syntax path.
use vstd::arithmetic::div_mod::{lemma_fundamental_div_mod, lemma_mul_mod_noop_left, lemma_mul_mod_noop_right, lemma_small_mod};
use vstd::prelude::*;
use crate::api::QueryResult;
use crate::output::{fnv1a, result_fingerprint};
use crate::text::hex_padded;

verus! {

/// The text of an optional member; nothing where it is missing.
pub open spec fn or_nothing(o: Option<String>) -> Seq<char> {
    match o {
        Some(s) => s@,
        None => Seq::<char>::empty(),
    }
}

/// The bytes over which a finding is recognised: its rule code, its file and its syntax
/// path, with a bar between them.
pub open spec fn seed(q: QueryResult, file: Seq<char>) -> Seq<u8> {
    vstd::utf8::encode_utf8(
        or_nothing(q.rule_code) + seq!['|'] + file + seq!['|'] + or_nothing(q.ast_node_path),
    )
}

/// The hash starts from the offset basis and takes in one byte after the other: an
/// exclusive or, and a product modulo two to the 64th.
pub proof fn law_hash_takes_in_every_byte(bytes: Seq<u8>, b: u8)
    ensures
        fnv1a(Seq::<u8>::empty()) == 14695981039346656037,
        fnv1a(bytes.push(b)) as int == ((fnv1a(bytes) ^ (b as u64)) as int * 1099511628211)
            % 18446744073709551616,
{
    assert(bytes.push(b).drop_last() =~= bytes);
    let x = fnv1a(bytes) ^ (b as u64);
    assert(x.wrapping_mul(0x0000_0100_0000_01b3u64) as int == (x as int * 1099511628211)
        % 18446744073709551616);
}

/// The lower-case hexadecimal digits, by value.
pub open spec fn hexadecimal() -> Seq<char> {
    seq!['0', '1', '2', '3', '4', '5', '6', '7', '8', '9', 'a', 'b', 'c', 'd', 'e', 'f']
}

/// Each digit of a padded number is the one that its place calls for.
pub proof fn law_hexadecimal_digits(n: nat, digits: nat)
    ensures
        hex_padded(n, digits).len() == digits,
        digits > 0 ==> hex_padded(n, digits).last() == hexadecimal()[(n % 16) as int],
        digits > 0 ==> hex_padded(n, digits).drop_last() == hex_padded(
            n / 16,
            (digits - 1) as nat,
        ),
    decreases digits,
{
    if digits > 0 {
        law_hexadecimal_digits(n / 16, (digits - 1) as nat);
        assert(hex_padded(n, digits).drop_last() =~= hex_padded(n / 16, (digits - 1) as nat));
        let d = n % 16;
        assert(d == 0 || d == 1 || d == 2 || d == 3 || d == 4 || d == 5 || d == 6 || d == 7 || d == 8
            || d == 9 || d == 10 || d == 11 || d == 12 || d == 13 || d == 14 || d == 15);
    }
}

/// Sixteen to the given power.
pub open spec fn places(digits: nat) -> nat
    decreases digits,
{
    if digits == 0 {
        1
    } else {
        16 * places((digits - 1) as nat)
    }
}

/// Padded numbers that fit are the same only where the numbers are.
pub proof fn law_hexadecimal_is_exact(a: nat, b: nat, digits: nat)
    requires
        a < places(digits),
        b < places(digits),
    ensures
        hex_padded(a, digits) == hex_padded(b, digits) <==> a == b,
    decreases digits,
{
    law_hexadecimal_digits(a, digits);
    law_hexadecimal_digits(b, digits);
    if digits > 0 {
        let rest = (digits - 1) as nat;
        assert(a / 16 < places(rest) && b / 16 < places(rest));
        law_hexadecimal_is_exact(a / 16, b / 16, rest);
        if hex_padded(a, digits) == hex_padded(b, digits) {
            let x = a % 16;
            let y = b % 16;
            assert(hexadecimal()[x as int] == hexadecimal()[y as int]);
            assert(forall|i: int, j: int|
                0 <= i < 16 && 0 <= j < 16 && #[trigger] hexadecimal()[i]
                    == #[trigger] hexadecimal()[j] ==> i == j);
            assert(x == y);
            lemma_fundamental_div_mod(a as int, 16);
            lemma_fundamental_div_mod(b as int, 16);
        }
    }
}

/// A fingerprint is the hash of rule code, file and syntax path in sixteen hexadecimal
/// digits.
pub proof fn law_fingerprint_is_the_hash(q: QueryResult, file: Seq<char>)
    ensures
        result_fingerprint(q, file) == hex_padded(fnv1a(seed(q, file)) as nat, 16),
{
    reveal_strlit("");
    reveal_strlit("|");
    assert(""@ =~= Seq::<char>::empty());
    assert("|"@ =~= seq!['|']);
}

/// Two findings have one fingerprint exactly where their rule codes, files and syntax paths
/// hash alike.
pub proof fn law_fingerprints_differ_as_the_hashes(
    a: QueryResult,
    a_file: Seq<char>,
    b: QueryResult,
    b_file: Seq<char>,
)
    ensures
        result_fingerprint(a, a_file) == result_fingerprint(b, b_file) <==> fnv1a(seed(a, a_file))
            == fnv1a(seed(b, b_file)),
{
    law_fingerprint_is_the_hash(a, a_file);
    law_fingerprint_is_the_hash(b, b_file);
    reveal_with_fuel(places, 17);
    assert(places(16) == 18446744073709551616);
    law_hexadecimal_is_exact(
        fnv1a(seed(a, a_file)) as nat,
        fnv1a(seed(b, b_file)) as nat,
        16,
    );
}

proof fn lemma_product_is_one_to_one(x: int, y: int)
    requires
        0 <= x < 18446744073709551616,
        0 <= y < 18446744073709551616,
        (x * 1099511628211) % 18446744073709551616 == (y * 1099511628211) % 18446744073709551616,
    ensures
        x == y,
{
    let m: int = 18446744073709551616;
    let p: int = 1099511628211;
    let v: int = 14886173955864302971;
    lemma_undone(x);
    lemma_undone(y);
    lemma_mul_mod_noop_left(x * p, v, m);
    lemma_mul_mod_noop_left(y * p, v, m);
}

proof fn lemma_undone(x: int)
    requires
        0 <= x < 18446744073709551616,
    ensures
        ((x * 1099511628211) * 14886173955864302971) % 18446744073709551616 == x,
{
    let m: int = 18446744073709551616;
    let p: int = 1099511628211;
    let v: int = 14886173955864302971;
    assert((p * v) % m == 1);
    assert((x * p) * v == x * (p * v)) by (nonlinear_arith);
    lemma_mul_mod_noop_right(x, p * v, m);
    assert(x * 1 == x);
    lemma_small_mod(x as nat, m as nat);
}

proof fn lemma_one_byte(a: Seq<u8>, b: Seq<u8>, i: int)
    requires
        a.len() == b.len(),
        0 <= i < a.len(),
        a[i] != b[i],
        forall|j: int| 0 <= j < a.len() && j != i ==> a[j] == b[j],
    ensures
        fnv1a(a) != fnv1a(b),
    decreases a.len(),
{
    let ha = fnv1a(a.drop_last());
    let hb = fnv1a(b.drop_last());
    let x = a.last();
    let y = b.last();
    assert(a =~= a.drop_last().push(x));
    assert(b =~= b.drop_last().push(y));
    law_hash_takes_in_every_byte(a.drop_last(), x);
    law_hash_takes_in_every_byte(b.drop_last(), y);
    if i == a.len() - 1 {
        assert(a.drop_last() =~= b.drop_last());
        assert(x != y ==> (ha ^ (x as u64)) != (ha ^ (y as u64))) by (bit_vector);
    } else {
        lemma_one_byte(a.drop_last(), b.drop_last(), i);
        assert(ha != hb ==> (ha ^ (x as u64)) != (hb ^ (x as u64))) by (bit_vector);
    }
    if fnv1a(a) == fnv1a(b) {
        lemma_product_is_one_to_one((ha ^ (x as u64)) as int, (hb ^ (y as u64)) as int);
    }
}

/// A change of one byte in rule code, file or syntax path gives another fingerprint.
pub proof fn law_one_changed_byte_is_another_finding(
    a: QueryResult,
    a_file: Seq<char>,
    b: QueryResult,
    b_file: Seq<char>,
    i: int,
)
    requires
        seed(a, a_file).len() == seed(b, b_file).len(),
        0 <= i < seed(a, a_file).len(),
        seed(a, a_file)[i] != seed(b, b_file)[i],
        forall|j: int|
            0 <= j < seed(a, a_file).len() && j != i ==> seed(a, a_file)[j] == seed(b, b_file)[j],
    ensures
        result_fingerprint(a, a_file) != result_fingerprint(b, b_file),
{
    lemma_one_byte(seed(a, a_file), seed(b, b_file), i);
    law_fingerprints_differ_as_the_hashes(a, a_file, b, b_file);
}

} // verus!
