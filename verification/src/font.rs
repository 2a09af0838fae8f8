use vstd::prelude::*;
use crate::text::{ascii_lowercase, has_substring, chars_of, char_to_ascii_lower, contains_chars, str_eq};

verus! {

/// The monospace families tried, in this order, after the configured one.
pub open spec fn mono_families() -> Seq<Seq<char>> {
    seq![
        "FiraCode Nerd Font"@,
        "FiraCode Nerd Font Mono"@,
        "Fira Code"@,
        "JetBrains Mono"@,
        "SF Mono"@,
        "Menlo"@,
        "Monaco"@,
        "Cascadia Mono"@,
        "Noto Sans Mono"@,
        "DejaVu Sans Mono"@,
    ]
}

/// The names of a list of fonts, as character sequences.
pub open spec fn names_view(names: Seq<String>) -> Seq<Seq<char>> {
    names.map_values(|s: String| s@)
}

/// The configured family (when installed), then each listed monospace family
/// among `fams` that is installed, is not the configured one and is not yet
/// taken, in the order of `fams`.
pub open spec fn listed_candidates(avail: Seq<Seq<char>>, base: Seq<char>, fams: Seq<Seq<char>>) -> Seq<Seq<char>>
    decreases fams.len(),
{
    if fams.len() == 0 {
        if avail.contains(base) {
            seq![base]
        } else {
            seq![]
        }
    } else {
        let acc = listed_candidates(avail, base, fams.drop_last());
        let f = fams.last();
        if f != base && avail.contains(f) && !acc.contains(f) {
            acc.push(f)
        } else {
            acc
        }
    }
}

/// A font name that, in ASCII lower case, mentions "mono", "code" or "console".
pub open spec fn looks_monospace(name: Seq<char>) -> bool {
    let lower = ascii_lowercase(name);
    has_substring(lower, "mono"@) || has_substring(lower, "code"@) || has_substring(lower, "console"@)
}

/// The names among `avail` that look monospace, in their order.
pub open spec fn monospace_looking(avail: Seq<Seq<char>>) -> Seq<Seq<char>>
    decreases avail.len(),
{
    if avail.len() == 0 {
        seq![]
    } else {
        let rest = monospace_looking(avail.drop_last());
        if looks_monospace(avail.last()) {
            rest.push(avail.last())
        } else {
            rest
        }
    }
}

/// The families worth measuring, in order of preference: the listed ones, or,
/// when none of them is installed, every installed one that looks monospace.
pub open spec fn font_candidates(avail: Seq<Seq<char>>, base: Seq<char>) -> Seq<Seq<char>> {
    let listed = listed_candidates(avail, base, mono_families());
    if listed.len() > 0 {
        listed
    } else {
        monospace_looking(avail)
    }
}

/// The first candidate whose glyphs measured evenly, else the configured family.
pub open spec fn first_monospace(candidates: Seq<Seq<char>>, monospace: Seq<bool>, base: Seq<char>) -> Seq<char>
    decreases candidates.len(),
{
    if candidates.len() == 0 {
        base
    } else if monospace[0] {
        candidates[0]
    } else {
        first_monospace(candidates.drop_first(), monospace.drop_first(), base)
    }
}

/// The monospace families tried after the configured one.
pub fn mono_font_families() -> (res: Vec<&'static str>)
    ensures
        res@.map_values(|s: &str| s@) == mono_families(),
{
    let res = vec![
        "FiraCode Nerd Font",
        "FiraCode Nerd Font Mono",
        "Fira Code",
        "JetBrains Mono",
        "SF Mono",
        "Menlo",
        "Monaco",
        "Cascadia Mono",
        "Noto Sans Mono",
        "DejaVu Sans Mono",
    ];
    assert(res@.map_values(|s: &str| s@) =~= mono_families());
    res
}

/// Whether `name` is among `names`.
pub fn names_contain(names: &Vec<String>, name: &str) -> (res: bool)
    ensures
        res == names_view(names@).contains(name@),
{
    let mut i: usize = 0;
    while i < names.len()
        invariant
            i <= names@.len(),
            forall|k: int| 0 <= k < i ==> names@[k]@ != name@,
        decreases names@.len() - i,
    {
        if str_eq(names[i].as_str(), name) {
            assert(names_view(names@)[i as int] == name@);
            return true;
        }
        i = i + 1;
    }
    proof {
        if names_view(names@).contains(name@) {
            let k = choose|k: int| 0 <= k < names_view(names@).len() && names_view(names@)[k] == name@;
            assert(names@[k]@ == name@);
        }
    }
    false
}

/// `name` in ASCII lower case, as characters.
pub fn ascii_lowercase_chars(name: &str) -> (res: Vec<char>)
    ensures
        res@ == ascii_lowercase(name@),
{
    let chars = chars_of(name);
    let mut out: Vec<char> = Vec::new();
    let mut i: usize = 0;
    while i < chars.len()
        invariant
            i <= chars@.len(),
            chars@ == name@,
            out@ == ascii_lowercase(chars@.take(i as int)),
        decreases chars@.len() - i,
    {
        let c = char_to_ascii_lower(chars[i]);
        out.push(c);
        assert(ascii_lowercase(chars@.take(i + 1)) =~= ascii_lowercase(chars@.take(i as int)).push(c));
        i = i + 1;
    }
    assert(chars@.take(i as int) =~= chars@);
    out
}

/// Whether a font name looks like that of a monospace family.
pub fn name_looks_monospace(name: &str) -> (res: bool)
    ensures
        res == looks_monospace(name@),
{
    let lower = ascii_lowercase_chars(name);
    let mono = chars_of("mono");
    let code = chars_of("code");
    let console = chars_of("console");
    contains_chars(&lower, &mono) || contains_chars(&lower, &code) || contains_chars(&lower, &console)
}

/// The installed families to try for the terminal font, in order of preference:
/// the configured family when it is installed, then the installed ones of the
/// usual monospace families; when that leaves none, every installed family
/// whose name mentions "mono", "code" or "console".
pub fn font_family_candidates(available: &Vec<String>, base_family: &str) -> (res: Vec<String>)
    ensures
        names_view(res@) == font_candidates(names_view(available@), base_family@),
{
    let ghost avail = names_view(available@);
    let mut out: Vec<String> = Vec::new();
    if names_contain(available, base_family) {
        out.push(base_family.to_owned());
    }
    let fams = mono_font_families();
    let ghost fv = fams@.map_values(|s: &str| s@);
    assert(names_view(out@) =~= listed_candidates(avail, base_family@, fv.take(0)));
    let mut i: usize = 0;
    while i < fams.len()
        invariant
            i <= fams@.len(),
            fv == fams@.map_values(|s: &str| s@),
            fv == mono_families(),
            avail == names_view(available@),
            names_view(out@) == listed_candidates(avail, base_family@, fv.take(i as int)),
        decreases fams@.len() - i,
    {
        let family: &str = fams[i];
        assert(fv.take(i + 1).drop_last() =~= fv.take(i as int));
        assert(fv.take(i + 1).last() == family@);
        if !str_eq(family, base_family) {
            if names_contain(available, family) && !names_contain(&out, family) {
                out.push(family.to_owned());
                assert(names_view(out@) =~= names_view(out@.drop_last()).push(family@));
            }
        }
        i = i + 1;
    }
    assert(fv.take(fams@.len() as int) =~= fv);
    if out.len() > 0 {
        return out;
    }
    let mut j: usize = 0;
    assert(names_view(out@) =~= monospace_looking(avail.take(0)));
    while j < available.len()
        invariant
            j <= available@.len(),
            avail == names_view(available@),
            names_view(out@) == monospace_looking(avail.take(j as int)),
        decreases available@.len() - j,
    {
        assert(avail.take(j + 1).drop_last() =~= avail.take(j as int));
        assert(avail.take(j + 1).last() == available@[j as int]@);
        if name_looks_monospace(available[j].as_str()) {
            out.push(available[j].clone());
            assert(names_view(out@) =~= names_view(out@.drop_last()).push(available@[j as int]@));
        }
        j = j + 1;
    }
    assert(avail.take(available@.len() as int) =~= avail);
    out
}

/// The family to render with: the first candidate whose glyphs measured evenly
/// (`monospace[i]` for `candidates[i]`), else the configured family.
pub fn pick_font_family(candidates: &Vec<String>, monospace: &Vec<bool>, base_family: &str) -> (res: String)
    requires
        monospace@.len() == candidates@.len(),
    ensures
        res@ == first_monospace(names_view(candidates@), monospace@, base_family@),
{
    assert(names_view(candidates@).skip(0) =~= names_view(candidates@));
    assert(monospace@.skip(0) =~= monospace@);
    let mut i: usize = 0;
    while i < candidates.len()
        invariant
            i <= candidates@.len() == monospace@.len(),
            first_monospace(names_view(candidates@), monospace@, base_family@) == first_monospace(
                names_view(candidates@).skip(i as int),
                monospace@.skip(i as int),
                base_family@,
            ),
        decreases candidates@.len() - i,
    {
        assert(names_view(candidates@).skip(i as int).drop_first() =~= names_view(candidates@).skip(i + 1));
        assert(monospace@.skip(i as int).drop_first() =~= monospace@.skip(i + 1));
        if monospace[i] {
            return candidates[i].clone();
        }
        i = i + 1;
    }
    base_family.to_owned()
}

} // verus!
