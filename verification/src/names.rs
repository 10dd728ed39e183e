use vstd::prelude::*;
use vstd::string::StringExecFns;

verus! {

/// The decimal digit character for `d`.
pub open spec fn digit_char(d: nat) -> char {
    (48 + d) as char
}

/// The decimal numeral of `n`, most significant digit first, with no
/// leading zeros (a lone `0` for zero).
pub open spec fn decimal_text(n: nat) -> Seq<char>
    decreases n,
{
    if n < 10 {
        seq![digit_char(n)]
    } else {
        decimal_text(n / 10).push(digit_char(n % 10))
    }
}

/// `String::push`: appends one character.
#[verifier::external_body]
fn string_push(text: &mut String, c: char)
    ensures
        final(text)@ == old(text)@.push(c),
{
    text.push(c)
}

/// Appends the decimal numeral of `n`.
fn append_decimal(text: &mut String, n: u64)
    ensures
        final(text)@ == old(text)@ + decimal_text(n as nat),
    decreases n,
{
    if n >= 10 {
        append_decimal(text, n / 10);
    }
    let d = (n % 10) as u8;
    let c = (48u8 + d) as char;
    assert(c == digit_char((n % 10) as nat));
    string_push(text, c);
    proof {
        assert(final(text)@ =~= old(text)@ + decimal_text(n as nat));
    }
}

/// The name of scene object number `i` of a numbered family: the family's
/// stem, an underscore and the number in decimal.
pub open spec fn numbered_name(stem: Seq<char>, i: nat) -> Seq<char> {
    stem + "_"@ + decimal_text(i)
}

/// Names scene object number `i` of the family `stem`.
pub fn numbered_id(stem: &str, i: usize) -> (id: String)
    ensures
        id@ == numbered_name(stem@, i as nat),
{
    let mut id = String::from_str(stem);
    id.append("_");
    append_decimal(&mut id, i as u64);
    proof {
        assert(id@ =~= numbered_name(stem@, i as nat));
    }
    id
}

/// The scene object of player laser slot `i`.
pub fn player_laser_id(i: usize) -> (id: String)
    ensures
        id@ == numbered_name("plaser"@, i as nat),
{
    numbered_id("plaser", i)
}

/// The scene object of enemy laser slot `i`.
pub fn enemy_laser_id(i: usize) -> (id: String)
    ensures
        id@ == numbered_name("elaser"@, i as nat),
{
    numbered_id("elaser", i)
}

/// The scene object of enemy ship `i`.
pub fn enemy_id(i: usize) -> (id: String)
    ensures
        id@ == numbered_name("enemy"@, i as nat),
{
    numbered_id("enemy", i)
}

/// The scene object of debris piece `i`.
pub fn debris_id(i: usize) -> (id: String)
    ensures
        id@ == numbered_name("debris"@, i as nat),
{
    numbered_id("debris", i)
}

/// The scene object of the gravity ring drawn around a planet.
pub fn gravity_ring_id(planet: &str) -> (id: String)
    ensures
        id@ == planet@ + "_grav_ring"@,
{
    let mut id = String::from_str(planet);
    id.append("_grav_ring");
    id
}

/// The particle emitter of a planet's atmosphere.
pub fn aura_id(planet: &str) -> (id: String)
    ensures
        id@ == planet@ + "_aura"@,
{
    let mut id = String::from_str(planet);
    id.append("_aura");
    id
}

/// The score readout.
pub fn score_text(score: u64) -> (text: String)
    ensures
        text@ == "SCORE: "@ + decimal_text(score as nat),
{
    let mut text = String::from_str("SCORE: ");
    append_decimal(&mut text, score);
    text
}

/// Different numbers give different numerals.
pub proof fn lemma_decimal_injective(a: nat, b: nat)
    requires
        decimal_text(a) == decimal_text(b),
    ensures
        a == b,
    decreases a + b,
{
    if a < 10 && b < 10 {
        assert(decimal_text(a)[0] == digit_char(a));
        assert(decimal_text(b)[0] == digit_char(b));
    } else if a >= 10 && b >= 10 {
        let ta = decimal_text(a / 10);
        let tb = decimal_text(b / 10);
        assert(decimal_text(a).last() == digit_char(a % 10));
        assert(decimal_text(b).last() == digit_char(b % 10));
        assert(decimal_text(a).drop_last() =~= ta);
        assert(decimal_text(b).drop_last() =~= tb);
        lemma_decimal_injective(a / 10, b / 10);
    } else {
        lemma_decimal_len(if a < 10 { b } else { a });
        assert(decimal_text(a).len() == decimal_text(b).len());
    }
}

/// A numeral of a number of ten or more has at least two digits.
pub proof fn lemma_decimal_len(n: nat)
    ensures
        decimal_text(n).len() >= 1,
        n >= 10 ==> decimal_text(n).len() >= 2,
    decreases n,
{
    if n >= 10 {
        lemma_decimal_len(n / 10);
    }
}

/// Different objects of one family never share a name, so every laser slot,
/// ship and debris piece finds its own scene object.
pub proof fn law_numbered_names_distinct(stem: Seq<char>, i: nat, j: nat)
    requires
        i != j,
    ensures
        numbered_name(stem, i) != numbered_name(stem, j),
{
    if numbered_name(stem, i) == numbered_name(stem, j) {
        let p = stem + "_"@;
        assert(numbered_name(stem, i).subrange(p.len() as int, numbered_name(stem, i).len() as int)
            =~= decimal_text(i));
        assert(numbered_name(stem, j).subrange(p.len() as int, numbered_name(stem, j).len() as int)
            =~= decimal_text(j));
        lemma_decimal_injective(i, j);
    }
}

} // verus!
