use vstd::prelude::*;
use vstd::string::StringExecFns;

verus! {

/// The names joined with `sep` between neighbours.
pub open spec fn joined(names: Seq<Seq<char>>, sep: Seq<char>) -> Seq<char>
    decreases names.len(),
{
    if names.len() == 0 {
        Seq::empty()
    } else if names.len() == 1 {
        names[0]
    } else {
        joined(names.drop_last(), sep) + sep + names.last()
    }
}

/// The text of the gravity readout: `Gravity: none` when no planet pulls on
/// the ship, otherwise the dominant planet (`none` when there is none) and
/// every planet in range, separated by commas.
pub open spec fn gravity_text(dominant: Option<Seq<char>>, in_range: Seq<Seq<char>>) -> Seq<char> {
    if in_range.len() == 0 {
        "Gravity: none"@
    } else {
        "Dominant: "@ + (match dominant {
            Some(d) => d,
            None => "none"@,
        }) + " | In range: "@ + joined(in_range, ", "@)
    }
}

/// Builds the gravity readout from the dominant planet's name, if any, and
/// the names of the planets in range, in the order given.
pub fn gravity_report(dominant: Option<&str>, in_range: &Vec<String>) -> (text: String)
    ensures
        text@ == gravity_text(
            match dominant {
                Some(d) => Some(d@),
                None => None,
            },
            in_range@.map_values(|s: String| s@),
        ),
{
    let ghost names = in_range@.map_values(|s: String| s@);
    let ghost dom = match dominant {
        Some(d) => Some(d@),
        None => None,
    };
    if in_range.len() == 0 {
        return String::from_str("Gravity: none");
    }
    let mut text = String::from_str("Dominant: ");
    match dominant {
        Some(d) => text.append(d),
        None => text.append("none"),
    }
    text.append(" | In range: ");
    let ghost prefix = text@;
    let n = in_range.len();
    let mut k: usize = 0;
    while k < n
        invariant
            n == in_range@.len(),
            n > 0,
            k <= n,
            names == in_range@.map_values(|s: String| s@),
            text@ == prefix + joined(names.take(k as int), ", "@),
        decreases n - k,
    {
        proof {
            assert(names.take(k as int + 1).drop_last() =~= names.take(k as int));
            assert(names.take(k as int + 1).last() == in_range@[k as int]@);
        }
        if k > 0 {
            text.append(", ");
        } else {
            assert(names.take(0) =~= Seq::<Seq<char>>::empty());
        }
        text.append(in_range[k].as_str());
        proof {
            assert(text@ == prefix + joined(names.take(k as int + 1), ", "@)) by {
                if k > 0 {
                    assert(prefix + joined(names.take(k as int), ", "@) + ", "@ + in_range@[k as int]@
                        =~= prefix + (joined(names.take(k as int), ", "@) + ", "@ + in_range@[k as int]@));
                } else {
                    assert(joined(names.take(1), ", "@) == names[0]);
                }
            }
        }
        k = k + 1;
    }
    proof {
        assert(names.take(n as int) =~= names);
    }
    text
}

} // verus!
