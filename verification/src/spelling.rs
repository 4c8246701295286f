//! What text in replies spells, said of its characters and of nothing else.
use vstd::prelude::*;

use crate::chain::{compact_size, le_bytes, total, transaction_bytes};
use crate::error::{display_hash, reverse_hex};
use crate::order::lex_le;
use crate::text::{decimal, digit_value, hex, unhex32};
use crate::treasury::hash_key;
use crate::types::{Hash256, TransactionView};
use crate::wire::{bytes_hex, hash_hex, transaction_hex, undisplay_hash};

verus! {

/// The character code of a lower-case hexadecimal digit.
pub open spec fn digit_code(v: int) -> int {
    if v < 10 {
        48 + v
    } else {
        87 + v
    }
}

/// `text` spells `bytes`: two lower-case hexadecimal digits for each byte, in their
/// order, the high half first.
pub open spec fn spells(text: Seq<char>, bytes: Seq<u8>) -> bool {
    &&& text.len() == 2 * bytes.len()
    &&& forall|i: int|
        #![trigger bytes[i]]
        0 <= i < bytes.len() ==> text[2 * i] as int == digit_code(bytes[i] as int / 16) && text[2
            * i + 1] as int == digit_code(bytes[i] as int % 16)
}

/// Text spells one list of bytes at most, and bytes are spelled by one text only.
pub proof fn spelling_is_unique(t: Seq<char>, u: Seq<char>, a: Seq<u8>, b: Seq<u8>)
    requires
        spells(t, a),
        spells(u, b),
    ensures
        t == u <==> a == b,
{
    if a == b {
        assert forall|i: int| 0 <= i < t.len() implies t[i] == u[i] by {
            let k = i / 2;
            assert(0 <= k < a.len());
            assert(a[k] == b[k]);
            assert(i == 2 * k || i == 2 * k + 1);
        }
        assert(t =~= u);
    }
    if t == u {
        assert forall|k: int| 0 <= k < a.len() implies a[k] == b[k] by {
            let x = a[k] as int;
            let y = b[k] as int;
            assert(digit_code(x / 16) == digit_code(y / 16));
            assert(digit_code(x % 16) == digit_code(y % 16));
        }
        assert(a =~= b);
    }
}

/// Bytes in hexadecimal spell those bytes.
pub proof fn hex_spells(bytes: Seq<u8>)
    ensures
        spells(hex(bytes), bytes),
{
    assert forall|i: int| #![trigger bytes[i]] 0 <= i < bytes.len() implies hex(bytes)[2 * i] as int
        == digit_code(bytes[i] as int / 16) && hex(bytes)[2 * i + 1] as int == digit_code(
        bytes[i] as int % 16,
    ) by {
        assert((2 * i) / 2 == i && (2 * i) % 2 == 0);
        assert((2 * i + 1) / 2 == i && (2 * i + 1) % 2 == 1);
        assert(0 <= bytes[i] as int / 16 < 16);
    }
}

/// A hash as people write it spells its bytes from the last to the first.
pub proof fn displayed_hash_spells(h: Hash256)
    ensures
        spells(display_hash(h), h.0@.reverse()),
{
    hex_spells(h.0@.reverse());
}

/// Bytes in reversed hexadecimal spell those bytes from the last to the first.
pub proof fn reversed_bytes_spell(bytes: Seq<u8>)
    ensures
        spells(reverse_hex(bytes), bytes.reverse()),
{
    hex_spells(bytes.reverse());
}

/// A hash as consensus serialises it spells its bytes from the first to the last.
pub proof fn consensus_hash_spells(h: Hash256)
    ensures
        spells(hash_hex(h), h.0@),
{
    hex_spells(h.0@);
}

/// A transaction goes out as its whole consensus serialisation.
pub proof fn transaction_spells(tx: TransactionView)
    ensures
        spells(transaction_hex(tx), transaction_bytes(tx)),
{
    hex_spells(transaction_bytes(tx));
}

/// A length is one byte up to 252, and otherwise a marker before two, four or eight
/// bytes of it, the lowest first.
pub proof fn lengths_have_their_form(n: nat)
    ensures
        n <= 252 ==> compact_size(n) == seq![n as u8],
        253 <= n <= 0xffff ==> compact_size(n) == seq![0xfdu8, (n % 256) as u8, (n / 256) as u8],
        0x1_0000 <= n <= 0xffff_ffff ==> compact_size(n) == seq![
            0xfeu8,
            (n % 256) as u8,
            (n / 256 % 256) as u8,
            (n / 256 / 256 % 256) as u8,
            (n / 256 / 256 / 256 % 256) as u8,
        ],
        n > 0xffff_ffff ==> compact_size(n) == seq![
            0xffu8,
            (n % 256) as u8,
            (n / 256 % 256) as u8,
            (n / 256 / 256 % 256) as u8,
            (n / 256 / 256 / 256 % 256) as u8,
            (n / 256 / 256 / 256 / 256 % 256) as u8,
            (n / 256 / 256 / 256 / 256 / 256 % 256) as u8,
            (n / 256 / 256 / 256 / 256 / 256 / 256 % 256) as u8,
            (n / 256 / 256 / 256 / 256 / 256 / 256 / 256 % 256) as u8,
        ],
{
    reveal_with_fuel(le_bytes, 9);
    if n > 0xffff_ffff {
        assert(compact_size(n) =~= seq![
            0xffu8,
            (n % 256) as u8,
            (n / 256 % 256) as u8,
            (n / 256 / 256 % 256) as u8,
            (n / 256 / 256 / 256 % 256) as u8,
            (n / 256 / 256 / 256 / 256 % 256) as u8,
            (n / 256 / 256 / 256 / 256 / 256 % 256) as u8,
            (n / 256 / 256 / 256 / 256 / 256 / 256 % 256) as u8,
            (n / 256 / 256 / 256 / 256 / 256 / 256 / 256 % 256) as u8,
        ]);
    } else if n > 0xffff {
        assert(compact_size(n) =~= seq![
            0xfeu8,
            (n % 256) as u8,
            (n / 256 % 256) as u8,
            (n / 256 / 256 % 256) as u8,
            (n / 256 / 256 / 256 % 256) as u8,
        ]);
    } else if n > 252 {
        assert(compact_size(n) =~= seq![0xfdu8, (n % 256) as u8, (n / 256) as u8]);
    }
}

/// Bytes as consensus serialises them spell their length and then themselves.
pub proof fn consensus_bytes_spell(bytes: Seq<u8>)
    ensures
        spells(bytes_hex(bytes), compact_size(bytes.len()) + bytes),
{
    hex_spells(compact_size(bytes.len()) + bytes);
}

/// Different bytes go out as different text.
pub proof fn consensus_bytes_read_back(a: Seq<u8>, b: Seq<u8>)
    requires
        bytes_hex(a) == bytes_hex(b),
    ensures
        a == b,
{
    consensus_bytes_spell(a);
    consensus_bytes_spell(b);
    let p = compact_size(a.len());
    let q = compact_size(b.len());
    spelling_is_unique(bytes_hex(a), bytes_hex(b), p + a, q + b);
    lengths_have_their_form(a.len());
    lengths_have_their_form(b.len());
    assert((p + a)[0] == p[0]);
    assert((q + b)[0] == q[0]);
    assert(p.len() == q.len());
    assert(a =~= (p + a).skip(p.len() as int));
    assert(b =~= (q + b).skip(q.len() as int));
}

/// The value of a hexadecimal digit of either case, and that nothing else is one.
pub proof fn digits_have_their_values(c: char)
    ensures
        48 <= c as int <= 57 ==> digit_value(c) == Some(c as int - 48),
        97 <= c as int <= 102 ==> digit_value(c) == Some(c as int - 87),
        65 <= c as int <= 70 ==> digit_value(c) == Some(c as int - 55),
        digit_value(c) is Some ==> 48 <= c as int <= 57 || 65 <= c as int <= 70 || 97 <= c as int
            <= 102,
{
}

/// Reversed hexadecimal text stands for the bytes that its pairs of digits give, the
/// last pair first, and only sixty-four digits stand for anything.
pub proof fn reversed_text_reads(text: Seq<char>)
    ensures
        undisplay_hash(text) is Some <==> text.len() == 64 && (forall|i: int|
            #![trigger text[i]]
            0 <= i < 64 ==> digit_value(text[i]) is Some),
        undisplay_hash(text) matches Some(h) ==> h.len() == 32 && (forall|k: int|
            #![trigger h[k]]
            0 <= k < 32 ==> h[k] as int == 16 * digit_value(text[62 - 2 * k])->0 + digit_value(
                text[63 - 2 * k],
            )->0),
{
    if text.len() == 64 && (forall|i: int|
        #![trigger text[i]]
        0 <= i < 64 ==> digit_value(text[i]) is Some) {
        assert(unhex32(text) is Some);
        let h = undisplay_hash(text)->0;
        assert forall|k: int| #![trigger h[k]] 0 <= k < 32 implies h[k] as int == 16 * digit_value(
            text[62 - 2 * k],
        )->0 + digit_value(text[63 - 2 * k])->0 by {
            assert(h[k] == unhex32(text)->0[31 - k]);
            assert(digit_value(text[62 - 2 * k]) is Some);
            assert(digit_value(text[63 - 2 * k]) is Some);
        }
    }
    if undisplay_hash(text) is Some {
        assert forall|i: int| #![trigger text[i]] 0 <= i < 64 implies digit_value(
            text[i],
        ) is Some by {
            assert(digit_value(text[i]) is Some);
        }
    }
}

/// The number that decimal digits give.
pub open spec fn number_of(text: Seq<char>) -> int
    decreases text.len(),
{
    if text.len() == 0 {
        0
    } else {
        10 * number_of(text.drop_last()) + (text.last() as int - 48)
    }
}

/// A number in decimal reads back as that number, and has no leading zero.
pub proof fn decimal_reads_back(n: nat)
    ensures
        number_of(decimal(n)) == n,
        decimal(n).len() > 0,
        n > 0 ==> decimal(n)[0] as int != 48,
        n == 0 ==> decimal(n).len() == 1,
        forall|i: int|
            #![trigger decimal(n)[i]]
            0 <= i < decimal(n).len() ==> 48 <= decimal(n)[i] as int <= 57,
    decreases n,
{
    let text = decimal(n);
    reveal_with_fuel(number_of, 2);
    if n < 10 {
        assert(text.drop_last() =~= Seq::<char>::empty());
    } else {
        decimal_reads_back(n / 10);
        assert(text.drop_last() =~= decimal(n / 10));
    }
}

/// The sum of no amounts is zero, and one more amount adds itself.
pub proof fn totals_add_up(values: Seq<u64>, value: u64)
    ensures
        total(Seq::<u64>::empty()) == 0,
        total(values.push(value)) == total(values) + value,
{
    assert(values.push(value).drop_last() =~= values);
}

/// `a` comes no later than `b` when both are read byte by byte.
pub open spec fn bytes_le(a: Seq<u8>, b: Seq<u8>) -> bool {
    a == b || exists|k: int|
        #![trigger a[k]]
        0 <= k < a.len() && k < b.len() && a[k] < b[k] && (forall|j: int|
            #![trigger a[j]]
            0 <= j < k ==> a[j] == b[j])
}

proof fn lemma_lex_le(p: Seq<int>, q: Seq<int>)
    requires
        p.len() == q.len(),
    ensures
        lex_le(p, q) <==> p == q || exists|k: int|
            #![trigger p[k]]
            0 <= k < p.len() && p[k] < q[k] && (forall|j: int|
                #![trigger p[j]]
                0 <= j < k ==> p[j] == q[j]),
    decreases p.len(),
{
    if p.len() == 0 {
        assert(p =~= q);
    } else {
        let a = p.drop_first();
        let b = q.drop_first();
        lemma_lex_le(a, b);
        assert(p =~= seq![p[0]] + a);
        assert(q =~= seq![q[0]] + b);
        if lex_le(p, q) {
            if p[0] == q[0] && a != b {
                let k = choose|k: int|
                    #![trigger a[k]]
                    0 <= k < a.len() && a[k] < b[k] && (forall|j: int|
                        #![trigger a[j]]
                        0 <= j < k ==> a[j] == b[j]);
                assert(p[k + 1] < q[k + 1]);
                assert forall|j: int| #![trigger p[j]] 0 <= j < k + 1 implies p[j] == q[j] by {
                    if j > 0 {
                        assert(a[j - 1] == b[j - 1]);
                    }
                }
            }
        } else if p != q && exists|k: int|
            #![trigger p[k]]
            0 <= k < p.len() && p[k] < q[k] && (forall|j: int|
                #![trigger p[j]]
                0 <= j < k ==> p[j] == q[j]) {
            let k = choose|k: int|
                #![trigger p[k]]
                0 <= k < p.len() && p[k] < q[k] && (forall|j: int|
                    #![trigger p[j]]
                    0 <= j < k ==> p[j] == q[j]);
            if k > 0 {
                assert(p[0] == q[0]);
                assert(a[k - 1] < b[k - 1]);
                assert forall|j: int| #![trigger a[j]] 0 <= j < k - 1 implies a[j] == b[j] by {
                    assert(p[j + 1] == q[j + 1]);
                }
            }
        }
    }
}

/// Hashes are ordered byte by byte from the first.
pub proof fn hashes_are_ordered_by_bytes(a: Hash256, b: Hash256)
    ensures
        lex_le(hash_key(a), hash_key(b)) <==> bytes_le(a.0@, b.0@),
{
    let p = hash_key(a);
    let q = hash_key(b);
    lemma_lex_le(p, q);
    assert forall|i: int| 0 <= i < 32 implies p[i] == a.0@[i] as int && q[i] == b.0@[i] as int by {
    }
    if p == q {
        assert forall|i: int| 0 <= i < 32 implies a.0@[i] == b.0@[i] by {
            assert(p[i] == q[i]);
        }
        assert(a.0@ =~= b.0@);
    } else if lex_le(p, q) {
        let k = choose|k: int|
            #![trigger p[k]]
            0 <= k < p.len() && p[k] < q[k] && (forall|j: int|
                #![trigger p[j]]
                0 <= j < k ==> p[j] == q[j]);
        assert(a.0@[k] < b.0@[k]);
        assert forall|j: int| #![trigger a.0@[j]] 0 <= j < k implies a.0@[j] == b.0@[j] by {
            assert(p[j] == q[j]);
        }
    } else if bytes_le(a.0@, b.0@) {
        if a.0@ != b.0@ {
            let k = choose|k: int|
                #![trigger a.0@[k]]
                0 <= k < a.0@.len() && k < b.0@.len() && a.0@[k] < b.0@[k] && (forall|j: int|
                    #![trigger a.0@[j]]
                    0 <= j < k ==> a.0@[j] == b.0@[j]);
            assert(p[k] < q[k]);
            assert forall|j: int| #![trigger p[j]] 0 <= j < k implies p[j] == q[j] by {
                assert(a.0@[j] == b.0@[j]);
            }
        }
    }
}

} // verus!
