use std::collections::hash_map::DefaultHasher;
use std::hash::{BuildHasher, BuildHasherDefault};
use vstd::prelude::*;

use crate::path::is_plain_component;

verus! {

/// Names the hash that std's `DefaultHasher`, as `DefaultHasher::new()`
/// builds it, gives for the key fields hashed one after another: the
/// bitcode, the architecture, the optimization level and the NVVM major and
/// minor version.
pub uninterp spec fn default_key_hash(
    bitcode: Seq<u8>,
    arch: Seq<char>,
    opt_level: Seq<char>,
    nvvm_major: i32,
    nvvm_minor: i32,
) -> u64;

/// Hashes the key fields with std's default hasher, through
/// `BuildHasher::hash_one` on a `BuildHasherDefault<DefaultHasher>`, which
/// starts from `DefaultHasher::default()` (the same hasher as
/// `DefaultHasher::new()`), feeds it the tuple of fields (a tuple hashes its
/// fields in order) and finishes it.
///
/// Trusted: the result is claimed to be a function of the fields alone. std
/// fixes the keys of this hasher (it is not seeded per process), but does not
/// promise the algorithm across releases, and the length prefix of the
/// bitcode is written in the target's word size and byte order.
#[verifier::external_body]
pub(crate) fn hash_key_fields(
    bitcode: &[u8],
    arch: &str,
    opt_level: &str,
    nvvm_major: i32,
    nvvm_minor: i32,
) -> (hash: u64)
    ensures
        hash == default_key_hash(bitcode@, arch@, opt_level@, nvvm_major, nvvm_minor),
{
    BuildHasherDefault::<DefaultHasher>::default().hash_one((bitcode, arch, opt_level, nvvm_major, nvvm_minor))
}

/// The sixteen lower-case hexadecimal digits, by value.
pub open spec fn hex_digit(d: nat) -> char {
    seq!['0', '1', '2', '3', '4', '5', '6', '7', '8', '9', 'a', 'b', 'c', 'd', 'e', 'f'][d as int]
}

/// The `count` lowest hexadecimal digits of `value`, most significant first,
/// zero-padded: what `{:0count$x}` prints for a value below `16^count`.
pub open spec fn hex_digits(value: nat, count: nat) -> Seq<char>
    decreases count,
{
    if count == 0 {
        Seq::empty()
    } else {
        hex_digits(value / 16, (count - 1) as nat).push(hex_digit(value % 16))
    }
}

/// The name of the file that holds the entry of a cache key's hash:
/// `{hash:016x}.ptx`.
pub open spec fn spec_cache_file_name(hash: u64) -> Seq<char> {
    hex_digits(hash as nat, 16) + seq!['.', 'p', 't', 'x']
}

fn push_hex_digits(out: &mut String, value: u64, count: u64)
    requires
        count <= 16,
    ensures
        final(out)@ == old(out)@ + hex_digits(value as nat, count as nat),
    decreases count,
{
    if count > 0 {
        push_hex_digits(out, value / 16, count - 1);
        let table = "0123456789abcdef";
        proof {
            reveal_strlit("0123456789abcdef");
        }
        let d = (value % 16) as usize;
        let digit = table.substring_char(d, d + 1);
        assert(digit@ =~= seq![hex_digit((value % 16) as nat)]);
        out.append(digit);
        assert(final(out)@ =~= old(out)@ + hex_digits(value as nat, count as nat));
    }
}

/// The file name under which the entry of `hash` is stored.
pub fn cache_file_name(hash: u64) -> (name: String)
    ensures
        name@ == spec_cache_file_name(hash),
{
    let mut name = String::new();
    push_hex_digits(&mut name, hash, 16);
    proof {
        reveal_strlit(".ptx");
    }
    name.append(".ptx");
    name
}

/// `i` is the position of the final `.` of `name`.
pub open spec fn is_final_dot(name: Seq<char>, i: int) -> bool {
    &&& 0 <= i < name.len()
    &&& name[i] == '.'
    &&& forall|j: int| i < j < name.len() ==> name[j] != '.'
}

/// The extension of a file name, as std's `Path::extension` documents it:
/// none if the name has no `.`, none if its only `.` is its first character
/// (and none for `..`); otherwise the part after the final `.`.
pub open spec fn file_extension(name: Seq<char>) -> Option<Seq<char>> {
    if name == seq!['.', '.'] || !(exists|i: int| is_final_dot(name, i)) {
        None
    } else {
        let i = choose|i: int| is_final_dot(name, i);
        if i == 0 {
            None
        } else {
            Some(name.subrange(i + 1, name.len() as int))
        }
    }
}

/// A directory entry is a cache file when the extension of its name is `ptx`.
pub open spec fn spec_is_cache_file_name(name: Seq<char>) -> bool {
    file_extension(name) == Some(seq!['p', 't', 'x'])
}

/// Whether a directory entry's name marks it as a cache file.
pub fn is_cache_file_name(name: &str) -> (is_cache_file: bool)
    ensures
        is_cache_file == spec_is_cache_file_name(name@),
{
    let n = name.unicode_len();
    let mut i = n;
    while i > 0 && name.get_char(i - 1) != '.'
        invariant
            i <= n,
            n == name@.len(),
            forall|j: int| i <= j < n ==> name@[j] != '.',
        decreases i,
    {
        i = i - 1;
    }
    if i == 0 {
        // no `.` at all
        assert(!(exists|k: int| is_final_dot(name@, k)));
        return false;
    }
    let dot = i - 1;
    assert(is_final_dot(name@, dot as int));
    assert forall|k: int| is_final_dot(name@, k) implies k == dot by {
        if k < dot {
            assert(name@[dot as int] != '.');
        } else if k > dot {
            assert(name@[k] != '.');
        }
    }
    if dot == 0 {
        return false;
    }
    if n - i != 3 {
        assert(name@ != seq!['.', '.'] ==> name@.subrange(i as int, n as int).len() != 3);
        return false;
    }
    let r = name.get_char(i) == 'p' && name.get_char(i + 1) == 't' && name.get_char(i + 2) == 'x';
    assert(name@ != seq!['.', '.']) by {
        if name@ == seq!['.', '.'] {
            assert(name@.len() == 2);
        }
    }
    if r {
        assert(name@.subrange(i as int, n as int) =~= seq!['p', 't', 'x']);
    } else {
        assert(name@.subrange(i as int, n as int) != seq!['p', 't', 'x']) by {
            let sub = name@.subrange(i as int, n as int);
            if sub == seq!['p', 't', 'x'] {
                assert(sub[0] == name@[i as int]);
                assert(sub[1] == name@[i + 1]);
                assert(sub[2] == name@[i + 2]);
            }
        }
    }
    r
}

/// The value of a lower-case hexadecimal digit.
pub open spec fn hex_digit_value(c: char) -> nat {
    if c == '0' { 0 } else if c == '1' { 1 } else if c == '2' { 2 } else if c == '3' { 3 }
    else if c == '4' { 4 } else if c == '5' { 5 } else if c == '6' { 6 } else if c == '7' { 7 }
    else if c == '8' { 8 } else if c == '9' { 9 } else if c == 'a' { 10 } else if c == 'b' { 11 }
    else if c == 'c' { 12 } else if c == 'd' { 13 } else if c == 'e' { 14 } else { 15 }
}

/// The number that a string of hexadecimal digits spells, most significant first.
pub open spec fn hex_value(digits: Seq<char>) -> nat
    decreases digits.len(),
{
    if digits.len() == 0 {
        0
    } else {
        16 * hex_value(digits.drop_last()) + hex_digit_value(digits.last())
    }
}

pub open spec fn pow16(n: nat) -> nat
    decreases n,
{
    if n == 0 {
        1
    } else {
        16 * pow16((n - 1) as nat)
    }
}

proof fn lemma_hex_digit(d: nat)
    requires
        d < 16,
    ensures
        hex_digit_value(hex_digit(d)) == d,
        hex_digit(d) != '.',
        hex_digit(d) != '/',
        hex_digit(d) != '\\',
        hex_digit(d) != ':',
{
    let t = seq!['0', '1', '2', '3', '4', '5', '6', '7', '8', '9', 'a', 'b', 'c', 'd', 'e', 'f'];
    assert(hex_digit(d) == t[d as int]);
    if d == 0 { assert(t[0] == '0'); } else if d == 1 { assert(t[1] == '1'); }
    else if d == 2 { assert(t[2] == '2'); } else if d == 3 { assert(t[3] == '3'); }
    else if d == 4 { assert(t[4] == '4'); } else if d == 5 { assert(t[5] == '5'); }
    else if d == 6 { assert(t[6] == '6'); } else if d == 7 { assert(t[7] == '7'); }
    else if d == 8 { assert(t[8] == '8'); } else if d == 9 { assert(t[9] == '9'); }
    else if d == 10 { assert(t[10] == 'a'); } else if d == 11 { assert(t[11] == 'b'); }
    else if d == 12 { assert(t[12] == 'c'); } else if d == 13 { assert(t[13] == 'd'); }
    else if d == 14 { assert(t[14] == 'e'); } else { assert(t[15] == 'f'); }
}

/// `hex_digits` writes exactly `count` digits, none of them a `.`, and for a
/// value below `16^count` they spell the value back.
proof fn lemma_hex_digits(value: nat, count: nat)
    ensures
        hex_digits(value, count).len() == count,
        forall|i: int|
            0 <= i < count ==> {
                let c = #[trigger] hex_digits(value, count)[i];
                c != '.' && c != '/' && c != '\\' && c != ':'
            },
        value < pow16(count) ==> hex_value(hex_digits(value, count)) == value,
    decreases count,
{
    if count > 0 {
        let rest = hex_digits(value / 16, (count - 1) as nat);
        lemma_hex_digits(value / 16, (count - 1) as nat);
        lemma_hex_digit(value % 16);
        let s = hex_digits(value, count);
        assert(s == rest.push(hex_digit(value % 16)));
        assert(s.drop_last() =~= rest);
        assert forall|i: int| 0 <= i < count implies {
            let c = #[trigger] s[i];
            c != '.' && c != '/' && c != '\\' && c != ':'
        } by {
            if i < count - 1 {
                assert(s[i] == rest[i]);
            }
        }
        if value < pow16(count) {
            assert(value / 16 < pow16((count - 1) as nat));
        }
    }
}

proof fn lemma_pow16_u64()
    ensures
        pow16(16) == 0x1_0000_0000_0000_0000,
{
    reveal_with_fuel(pow16, 17);
}

/// A cache key's file is a cache file: the entries that storing writes are the
/// entries that the statistics count, that clearing removes and that eviction
/// may remove.
pub proof fn lemma_cache_file_name_is_cache_file(hash: u64)
    ensures
        spec_is_cache_file_name(spec_cache_file_name(hash)),
        spec_cache_file_name(hash).len() == 20,
        is_plain_component(spec_cache_file_name(hash)),
{
    let digits = hex_digits(hash as nat, 16);
    lemma_hex_digits(hash as nat, 16);
    let name = spec_cache_file_name(hash);
    assert(name.len() == 20);
    assert(name[16] == '.');
    assert(is_final_dot(name, 16)) by {
        assert(name[17] == 'p');
        assert(name[18] == 't');
        assert(name[19] == 'x');
    }
    assert forall|k: int| is_final_dot(name, k) implies k == 16 by {
        if k < 16 {
            assert(name[k] == digits[k]);
        }
    }
    assert(name != seq!['.', '.']) by {
        assert(name.len() != 2);
    }
    assert(name.subrange(17, 20) =~= seq!['p', 't', 'x']);
    assert forall|i: int| 0 <= i < name.len() implies {
        let c = #[trigger] name[i];
        c != '/' && c != '\\' && c != ':'
    } by {
        if i < 16 {
            assert(name[i] == digits[i]);
        }
    }
    assert(name != seq!['.']) by {
        assert(name.len() != 1);
    }
}

/// Distinct hashes are stored in distinct files.
pub proof fn lemma_cache_file_names_distinct(h1: u64, h2: u64)
    requires
        h1 != h2,
    ensures
        spec_cache_file_name(h1) != spec_cache_file_name(h2),
{
    lemma_pow16_u64();
    lemma_hex_digits(h1 as nat, 16);
    lemma_hex_digits(h2 as nat, 16);
    if spec_cache_file_name(h1) == spec_cache_file_name(h2) {
        assert(spec_cache_file_name(h1).subrange(0, 16) =~= hex_digits(h1 as nat, 16));
        assert(spec_cache_file_name(h2).subrange(0, 16) =~= hex_digits(h2 as nat, 16));
    }
}

} // verus!
