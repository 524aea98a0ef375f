//! Texture and material identifiers for generated scene descriptions.
//!
//! A scene description names its textures and materials, and primitives
//! refer to them by those names; a dangling name is a construction-time
//! error. The generators therefore draw identifiers from a counter, and the
//! identifiers must never collide. The formatting below is verified exactly,
//! and [`lemma_texture_ids_distinct`], [`lemma_material_ids_distinct`] and
//! [`lemma_texture_and_material_ids_distinct`] prove that distinct counter
//! values (and the two id families) can never produce the same identifier.

use vstd::prelude::*;

use vstd::string::StringExecFns;

verus! {

/// The character for the decimal digit `d`.
pub open spec fn digit_char(d: int) -> char {
    if d == 0 {
        '0'
    } else if d == 1 {
        '1'
    } else if d == 2 {
        '2'
    } else if d == 3 {
        '3'
    } else if d == 4 {
        '4'
    } else if d == 5 {
        '5'
    } else if d == 6 {
        '6'
    } else if d == 7 {
        '7'
    } else if d == 8 {
        '8'
    } else {
        '9'
    }
}

/// The decimal digits of `n`, zero-padded on the left to at least `width`
/// characters.
pub open spec fn decimal_digits(n: nat, width: nat) -> Seq<char>
    decreases n, width,
{
    if n < 10 && width <= 1 {
        seq![digit_char(n as int)]
    } else {
        decimal_digits(n / 10, if width == 0 { 0 } else { (width - 1) as nat }).push(
            digit_char((n % 10) as int),
        )
    }
}

/// The identifier issued to a texture when the counter stands at `n`.
pub open spec fn texture_id(n: nat) -> Seq<char> {
    seq!['t', 'e', 'x', '_'] + decimal_digits(n, 7)
}

/// The identifier issued to a material when the counter stands at `n`.
pub open spec fn material_id(n: nat) -> Seq<char> {
    seq!['m', 'a', 't', '_'] + decimal_digits(n, 7)
}

/// Append the character for the decimal digit `d`.
fn push_digit(s: &mut String, d: u64)
    requires
        d < 10,
    ensures
        final(s)@ == old(s)@.push(digit_char(d as int)),
{
    if d == 0 {
        s.append("0");
        proof {
            reveal_strlit("0");
            assert(s@ =~= old(s)@.push('0'));
        }
    } else if d == 1 {
        s.append("1");
        proof {
            reveal_strlit("1");
            assert(s@ =~= old(s)@.push('1'));
        }
    } else if d == 2 {
        s.append("2");
        proof {
            reveal_strlit("2");
            assert(s@ =~= old(s)@.push('2'));
        }
    } else if d == 3 {
        s.append("3");
        proof {
            reveal_strlit("3");
            assert(s@ =~= old(s)@.push('3'));
        }
    } else if d == 4 {
        s.append("4");
        proof {
            reveal_strlit("4");
            assert(s@ =~= old(s)@.push('4'));
        }
    } else if d == 5 {
        s.append("5");
        proof {
            reveal_strlit("5");
            assert(s@ =~= old(s)@.push('5'));
        }
    } else if d == 6 {
        s.append("6");
        proof {
            reveal_strlit("6");
            assert(s@ =~= old(s)@.push('6'));
        }
    } else if d == 7 {
        s.append("7");
        proof {
            reveal_strlit("7");
            assert(s@ =~= old(s)@.push('7'));
        }
    } else if d == 8 {
        s.append("8");
        proof {
            reveal_strlit("8");
            assert(s@ =~= old(s)@.push('8'));
        }
    } else {
        s.append("9");
        proof {
            reveal_strlit("9");
            assert(s@ =~= old(s)@.push('9'));
        }
    }
}

/// Append the decimal digits of `n`, zero-padded to at least `width`
/// characters.
fn push_decimal_digits(s: &mut String, n: u64, width: u64)
    ensures
        final(s)@ == old(s)@ + decimal_digits(n as nat, width as nat),
    decreases n, width,
{
    if n < 10 && width <= 1 {
        push_digit(s, n);
        proof {
            assert(s@ =~= old(s)@ + decimal_digits(n as nat, width as nat));
        }
    } else {
        let rest: u64 = if width == 0 { 0 } else { width - 1 };
        push_decimal_digits(s, n / 10, rest);
        push_digit(s, n % 10);
        proof {
            assert(s@ =~= old(s)@ + decimal_digits(n as nat, width as nat));
        }
    }
}

/// Format the identifier for the next texture and advance the counter.
pub fn get_next_texture_id(counter: &mut u64) -> (id: String)
    requires
        *old(counter) < u64::MAX,
    ensures
        *final(counter) == *old(counter) + 1,
        id@ == texture_id(*old(counter) as nat),
{
    let mut id = String::from_str("tex_");
    proof {
        reveal_strlit("tex_");
    }
    push_decimal_digits(&mut id, *counter, 7);
    proof {
        assert(id@ =~= texture_id(*counter as nat));
    }
    *counter = *counter + 1;
    id
}

/// Format the identifier for the next material and advance the counter.
pub fn get_next_material_id(counter: &mut u64) -> (id: String)
    requires
        *old(counter) < u64::MAX,
    ensures
        *final(counter) == *old(counter) + 1,
        id@ == material_id(*old(counter) as nat),
{
    let mut id = String::from_str("mat_");
    proof {
        reveal_strlit("mat_");
    }
    push_decimal_digits(&mut id, *counter, 7);
    proof {
        assert(id@ =~= material_id(*counter as nat));
    }
    *counter = *counter + 1;
    id
}

/// Every digit run is at least one character long, and at least as long as
/// the requested padding.
proof fn lemma_decimal_digits_len(n: nat, width: nat)
    ensures
        decimal_digits(n, width).len() >= 1,
        decimal_digits(n, width).len() >= width,
    decreases n, width,
{
    if n < 10 && width <= 1 {
    } else {
        lemma_decimal_digits_len(n / 10, if width == 0 { 0 } else { (width - 1) as nat });
    }
}

/// Padded to one width, distinct numbers have distinct digit runs.
proof fn lemma_decimal_digits_injective(n1: nat, n2: nat, width: nat)
    requires
        decimal_digits(n1, width) == decimal_digits(n2, width),
    ensures
        n1 == n2,
    decreases n1, width,
{
    let s1 = decimal_digits(n1, width);
    let s2 = decimal_digits(n2, width);
    if n1 < 10 && width <= 1 {
        if n2 < 10 {
            assert(s1[0] == s2[0]);
        } else {
            lemma_decimal_digits_len(n2 / 10, if width == 0 { 0 } else { (width - 1) as nat });
            assert(s2.len() >= 2);
        }
    } else {
        let rest = if width == 0 { 0 } else { (width - 1) as nat };
        if n2 < 10 && width <= 1 {
            lemma_decimal_digits_len(n1 / 10, rest);
            assert(s1.len() >= 2);
        } else {
            let t1 = decimal_digits(n1 / 10, rest);
            let t2 = decimal_digits(n2 / 10, rest);
            assert(s1.last() == s2.last());
            assert(n1 % 10 == n2 % 10);
            assert(t1 =~= s1.drop_last());
            assert(t2 =~= s2.drop_last());
            lemma_decimal_digits_injective(n1 / 10, n2 / 10, rest);
            assert(n1 == 10 * (n1 / 10) + n1 % 10);
            assert(n2 == 10 * (n2 / 10) + n2 % 10);
        }
    }
}

/// Distinct counter values produce distinct texture identifiers.
pub proof fn lemma_texture_ids_distinct(n1: nat, n2: nat)
    requires
        n1 != n2,
    ensures
        texture_id(n1) != texture_id(n2),
{
    if texture_id(n1) == texture_id(n2) {
        let d1 = decimal_digits(n1, 7);
        let d2 = decimal_digits(n2, 7);
        assert(texture_id(n1).skip(4) =~= d1);
        assert(texture_id(n2).skip(4) =~= d2);
        lemma_decimal_digits_injective(n1, n2, 7);
    }
}

/// Distinct counter values produce distinct material identifiers.
pub proof fn lemma_material_ids_distinct(n1: nat, n2: nat)
    requires
        n1 != n2,
    ensures
        material_id(n1) != material_id(n2),
{
    if material_id(n1) == material_id(n2) {
        let d1 = decimal_digits(n1, 7);
        let d2 = decimal_digits(n2, 7);
        assert(material_id(n1).skip(4) =~= d1);
        assert(material_id(n2).skip(4) =~= d2);
        lemma_decimal_digits_injective(n1, n2, 7);
    }
}

/// A texture identifier is never a material identifier.
pub proof fn lemma_texture_and_material_ids_distinct(n1: nat, n2: nat)
    ensures
        texture_id(n1) != material_id(n2),
{
    assert(texture_id(n1)[0] == 't');
    assert(material_id(n2)[0] == 'm');
}

} // verus!
