//! A registry of named themes with one of them selected.

use vstd::prelude::*;
use crate::presets::{
    preset_entries, theme_dracula, theme_github_light, theme_gruvbox_dark, theme_gruvbox_light,
    theme_nord, theme_one_dark, theme_one_light, theme_solarized_dark, theme_solarized_light,
};
use crate::text::{
    lemma_lex_lt_irreflexive, lemma_lex_lt_total, lemma_lex_lt_transitive, lex_lt, str_lt,
};
use crate::theme::{config_is_readable, theme_of_config, TerminalTheme, TerminalThemeConfig};

verus! {

/// A theme under its name.
#[derive(Clone, Debug)]
pub struct ThemeDefinition {
    pub name: String,
    pub theme: TerminalTheme,
}

/// The themes of a sequence of definitions, by name; a later definition of
/// a name wins.
pub open spec fn defs_map(defs: Seq<ThemeDefinition>) -> Map<Seq<char>, TerminalTheme>
    decreases defs.len(),
{
    if defs.len() == 0 {
        Map::empty()
    } else {
        defs_map(defs.drop_last()).insert(defs.last().name@, defs.last().theme)
    }
}

/// No two definitions share a name.
pub open spec fn names_unique(defs: Seq<ThemeDefinition>) -> bool {
    forall|i: int, j: int|
        0 <= i < j < defs.len() ==> #[trigger] defs[i].name@ != #[trigger] defs[j].name@
}

/// The names of `names`, in order, are strictly increasing.
pub open spec fn strictly_sorted(names: Seq<Seq<char>>) -> bool {
    forall|i: int, j: int| 0 <= i < j < names.len() ==> lex_lt(#[trigger] names[i], #[trigger] names[j])
}

/// The themes a fresh manager holds: the presets, then the custom theme.
pub open spec fn entries_map(entries: Seq<(Seq<char>, TerminalTheme)>) -> Map<Seq<char>, TerminalTheme>
    decreases entries.len(),
{
    if entries.len() == 0 {
        Map::empty()
    } else {
        entries_map(entries.drop_last()).insert(entries.last().0, entries.last().1)
    }
}


/// Some definition among the first `k` is named `n`.
pub open spec fn named_among(defs: Seq<ThemeDefinition>, k: int, n: Seq<char>) -> bool {
    exists|i: int| 0 <= i < k && #[trigger] defs[i].name@ == n
}

/// Some string of `names` is `n`.
pub open spec fn listed(names: Seq<String>, n: Seq<char>) -> bool {
    exists|i: int| 0 <= i < names.len() && #[trigger] names[i]@ == n
}

proof fn lemma_defs_map_has(defs: Seq<ThemeDefinition>, i: int)
    requires
        names_unique(defs),
        0 <= i < defs.len(),
    ensures
        defs_map(defs).contains_key(defs[i].name@),
        defs_map(defs)[defs[i].name@] == defs[i].theme,
    decreases defs.len(),
{
    if i < defs.len() - 1 {
        lemma_defs_map_has(defs.drop_last(), i);
        assert(defs.drop_last()[i] == defs[i]);
        assert(defs[i].name@ != defs[defs.len() - 1].name@);
    }
}

proof fn lemma_defs_map_keys(defs: Seq<ThemeDefinition>, name: Seq<char>)
    ensures
        defs_map(defs).contains_key(name) <==> exists|i: int|
            0 <= i < defs.len() && #[trigger] defs[i].name@ == name,
    decreases defs.len(),
{
    if defs.len() > 0 {
        lemma_defs_map_keys(defs.drop_last(), name);
        if defs_map(defs.drop_last()).contains_key(name) {
            let i = choose|i: int| 0 <= i < defs.len() - 1 && #[trigger] defs.drop_last()[i].name@ == name;
            assert(defs[i] == defs.drop_last()[i]);
        }
        if exists|i: int| 0 <= i < defs.len() && #[trigger] defs[i].name@ == name {
            let i = choose|i: int| 0 <= i < defs.len() && #[trigger] defs[i].name@ == name;
            if i < defs.len() - 1 {
                assert(defs.drop_last()[i] == defs[i]);
            }
        }
    }
}

proof fn lemma_defs_map_push(defs: Seq<ThemeDefinition>, d: ThemeDefinition)
    ensures
        defs_map(defs.push(d)) == defs_map(defs).insert(d.name@, d.theme),
{
    assert(defs.push(d).drop_last() =~= defs);
}

proof fn lemma_defs_map_replace(defs: Seq<ThemeDefinition>, i: int, d: ThemeDefinition)
    requires
        names_unique(defs),
        0 <= i < defs.len(),
        d.name@ == defs[i].name@,
    ensures
        names_unique(defs.update(i, d)),
        defs_map(defs.update(i, d)) == defs_map(defs).insert(d.name@, d.theme),
    decreases defs.len(),
{
    let u = defs.update(i, d);
    assert forall|a: int, b: int| 0 <= a < b < u.len() implies #[trigger] u[a].name@
        != #[trigger] u[b].name@ by {
        assert(defs[a].name@ != defs[b].name@);
    }
    if i == defs.len() - 1 {
        assert(u.drop_last() =~= defs.drop_last());
        let m1 = defs_map(defs.drop_last()).insert(d.name@, d.theme);
        let m2 = defs_map(defs.drop_last()).insert(defs.last().name@, defs.last().theme).insert(
            d.name@,
            d.theme,
        );
        assert(m1 =~= m2);
    } else {
        assert(u.drop_last() =~= defs.drop_last().update(i, d));
        assert(names_unique(defs.drop_last()));
        lemma_defs_map_replace(defs.drop_last(), i, d);
        assert(defs[i].name@ != defs.last().name@);
        let l = defs.last();
        let base = defs_map(defs.drop_last());
        assert(base.insert(d.name@, d.theme).insert(l.name@, l.theme) =~= base.insert(
            l.name@,
            l.theme,
        ).insert(d.name@, d.theme));
    }
}


proof fn lemma_defs_match_entries(defs: Seq<ThemeDefinition>, entries: Seq<(Seq<char>, TerminalTheme)>)
    requires
        defs.len() == entries.len(),
        forall|i: int|
            0 <= i < defs.len() ==> #[trigger] defs[i].name@ == entries[i].0 && defs[i].theme
                == entries[i].1,
    ensures
        defs_map(defs) == entries_map(entries),
    decreases defs.len(),
{
    if defs.len() > 0 {
        let d = defs.drop_last();
        let e = entries.drop_last();
        assert forall|i: int| 0 <= i < d.len() implies #[trigger] d[i].name@ == e[i].0 && d[i].theme
            == e[i].1 by {
            assert(d[i] == defs[i]);
            assert(e[i] == entries[i]);
        }
        lemma_defs_match_entries(d, e);
        assert(defs.last() == defs[defs.len() - 1]);
    }
}

/// The preset names are pairwise different.
proof fn lemma_preset_names_distinct()
    ensures
        forall|i: int, j: int|
            0 <= i < j < preset_entries().len() ==> #[trigger] preset_entries()[i].0
                != #[trigger] preset_entries()[j].0,
        forall|i: int| 0 <= i < preset_entries().len() ==> #[trigger] preset_entries()[i].0 != "Custom"@,
        preset_entries()[0].0 == "One Dark"@,
{
    reveal_strlit("One Dark");
    reveal_strlit("Solarized Dark");
    reveal_strlit("Dracula");
    reveal_strlit("Nord");
    reveal_strlit("Gruvbox Dark");
    reveal_strlit("One Light");
    reveal_strlit("Solarized Light");
    reveal_strlit("GitHub Light");
    reveal_strlit("Gruvbox Light");
    reveal_strlit("Custom");
    let e = preset_entries();
    assert(e[0].0.len() == 8);
    assert(e[1].0.len() == 14);
    assert(e[2].0.len() == 7);
    assert(e[3].0.len() == 4);
    assert(e[4].0.len() == 12);
    assert(e[5].0.len() == 9);
    assert(e[6].0.len() == 15);
    assert(e[7].0.len() == 12);
    assert(e[8].0.len() == 13);
    assert("Custom"@.len() == 6);
    assert(e[4].0[1] != e[7].0[1]);
    assert(e.len() == 9);
    assert forall|i: int, j: int| 0 <= i < j < e.len() implies #[trigger] e[i].0 != #[trigger] e[j].0 by {
        if i == 4 && j == 7 {
            assert(e[4].0[1] != e[7].0[1]);
        } else {
            assert(e[i].0.len() != e[j].0.len());
        }
    }
}

/// Keeps named themes and which one is in use. The theme in use is always
/// one that the manager holds.
pub struct ThemeManager {
    themes: Vec<ThemeDefinition>,
    current_theme_name: String,
}

impl ThemeManager {
    /// Names are unique and the theme in use is held.
    #[verifier::type_invariant]
    spec fn wf(self) -> bool {
        &&& names_unique(self.themes@)
        &&& defs_map(self.themes@).contains_key(self.current_theme_name@)
    }

    /// The themes held, by name.
    pub closed spec fn themes(self) -> Map<Seq<char>, TerminalTheme> {
        defs_map(self.themes@)
    }

    /// The name of the theme in use.
    pub closed spec fn current_name(self) -> Seq<char> {
        self.current_theme_name@
    }

    fn position(&self, name: &str) -> (res: Option<usize>)
        ensures
            match res {
                Some(i) => i < self.themes@.len() && self.themes@[i as int].name@ == name@,
                None => forall|i: int|
                    0 <= i < self.themes@.len() ==> #[trigger] self.themes@[i].name@ != name@,
            },
    {
        let mut i: usize = 0;
        while i < self.themes.len()
            invariant
                i <= self.themes@.len(),
                forall|k: int| 0 <= k < i ==> #[trigger] self.themes@[k].name@ != name@,
            decreases self.themes@.len() - i,
        {
            if !str_lt(self.themes[i].name.as_str(), name) && !str_lt(name, self.themes[i].name.as_str()) {
                proof {
                    if self.themes@[i as int].name@ != name@ {
                        lemma_lex_lt_total(self.themes@[i as int].name@, name@);
                    }
                }
                return Some(i);
            }
            proof {
                lemma_lex_lt_irreflexive(name@);
            }
            i = i + 1;
        }
        None
    }


    /// A manager holding the preset themes, and the theme that
    /// `config_theme` describes under the name "Custom"; "One Dark" is in use.
    pub fn new(config_theme: Option<TerminalThemeConfig>) -> (m: Self)
        requires
            config_theme matches Some(cfg) ==> config_is_readable(cfg),
        ensures
            m.current_name() == "One Dark"@,
            match config_theme {
                None => m.themes() == entries_map(preset_entries()),
                Some(cfg) => exists|t: TerminalTheme|
                    theme_of_config(t, cfg) && m.themes() == entries_map(preset_entries()).insert(
                        "Custom"@,
                        t,
                    ),
            },
    {
        let mut themes: Vec<ThemeDefinition> = Vec::new();
        themes.push(theme_one_dark());
        themes.push(theme_solarized_dark());
        themes.push(theme_dracula());
        themes.push(theme_nord());
        themes.push(theme_gruvbox_dark());
        themes.push(theme_one_light());
        themes.push(theme_solarized_light());
        themes.push(theme_github_light());
        themes.push(theme_gruvbox_light());
        proof {
            lemma_preset_names_distinct();
            let e = preset_entries();
            assert forall|i: int| 0 <= i < themes@.len() implies #[trigger] themes@[i].name@ == e[i].0
                && themes@[i].theme == e[i].1 by {}
            lemma_defs_match_entries(themes@, e);
            assert forall|i: int, j: int| 0 <= i < j < themes@.len() implies #[trigger] themes@[i].name@
                != #[trigger] themes@[j].name@ by {
                assert(themes@[i].name@ == e[i].0);
                assert(themes@[j].name@ == e[j].0);
            }
            lemma_defs_map_has(themes@, 0);
        }
        let mut manager = ThemeManager { themes, current_theme_name: String::from_str("One Dark") };
        if let Some(theme_config) = config_theme {
            let custom = ThemeDefinition {
                name: String::from_str("Custom"),
                theme: theme_config.to_theme(),
            };
            manager.add_theme(custom);
        }
        manager
    }

    /// The names of the themes held, in increasing order.
    pub fn available_themes(&self) -> (names: Vec<String>)
        ensures
            strictly_sorted(names@.map_values(|n: String| n@)),
            forall|n: Seq<char>| #[trigger] self.themes().contains_key(n) <==> listed(names@, n),
    {
        proof {
            use_type_invariant(&*self);
        }
        let mut out: Vec<String> = Vec::new();
        let mut k: usize = 0;
        while k < self.themes.len()
            invariant
                k <= self.themes@.len(),
                names_unique(self.themes@),
                strictly_sorted(out@.map_values(|n: String| n@)),
                forall|n: Seq<char>| #[trigger] named_among(self.themes@, k as int, n) <==> listed(out@, n),
            decreases self.themes@.len() - k,
        {
            let name = self.themes[k].name.clone();
            let ghost sorted = out@.map_values(|n: String| n@);
            let mut p: usize = 0;
            while p < out.len() && !str_lt(name.as_str(), out[p].as_str())
                invariant
                    p <= out@.len(),
                    sorted == out@.map_values(|n: String| n@),
                    forall|q: int| 0 <= q < p ==> !lex_lt(name@, #[trigger] sorted[q]),
                decreases out@.len() - p,
            {
                p = p + 1;
            }
            proof {
                assert forall|q: int| 0 <= q < out@.len() implies #[trigger] sorted[q] != name@ by {
                    assert(sorted[q] == out@[q]@);
                    assert(listed(out@, out@[q]@));
                    assert(named_among(self.themes@, k as int, out@[q]@));
                    let i = choose|i: int| 0 <= i < k && #[trigger] self.themes@[i].name@ == out@[q]@;
                    assert(self.themes@[i].name@ != self.themes@[k as int].name@);
                }
                assert forall|q: int| 0 <= q < p implies lex_lt(#[trigger] sorted[q], name@) by {
                    lemma_lex_lt_total(sorted[q], name@);
                }
                if p < out@.len() {
                    assert(lex_lt(name@, sorted[p as int]));
                    assert forall|q: int| p <= q < out@.len() implies lex_lt(name@, #[trigger] sorted[q]) by {
                        if q > p {
                            lemma_lex_lt_transitive(name@, sorted[p as int], sorted[q]);
                        }
                    }
                }
            }
            let ghost old_out = out@;
            out.insert(p, name);
            proof {
                let ns = out@.map_values(|n: String| n@);
                assert(ns =~= sorted.insert(p as int, name@));
                assert forall|i: int, j: int| 0 <= i < j < ns.len() implies lex_lt(#[trigger] ns[i], #[trigger] ns[j]) by {
                    if i < p && j < p {
                        assert(ns[i] == sorted[i] && ns[j] == sorted[j]);
                    } else if i < p && j == p {
                        assert(ns[i] == sorted[i]);
                    } else if i < p {
                        assert(ns[i] == sorted[i] && ns[j] == sorted[j - 1]);
                        lemma_lex_lt_transitive(sorted[i], name@, sorted[j - 1]);
                    } else if i == p {
                        assert(ns[j] == sorted[j - 1]);
                    } else {
                        assert(ns[i] == sorted[i - 1] && ns[j] == sorted[j - 1]);
                    }
                }
                assert forall|n: Seq<char>| #[trigger] named_among(self.themes@, k + 1, n) <==> listed(out@, n) by {
                    if named_among(self.themes@, k + 1, n) {
                        let i = choose|i: int| 0 <= i < k + 1 && #[trigger] self.themes@[i].name@ == n;
                        if i == k {
                            assert(out@[p as int]@ == n);
                            assert(listed(out@, n));
                        } else {
                            assert(named_among(self.themes@, k as int, n));
                            let q = choose|q: int| 0 <= q < old_out.len() && #[trigger] old_out[q]@ == n;
                            if q < p {
                                assert(out@[q] == old_out[q]);
                                assert(out@[q]@ == n);
                            } else {
                                assert(out@[q + 1] == old_out[q]);
                                assert(out@[q + 1]@ == n);
                            }
                            assert(listed(out@, n));
                        }
                    }
                    if listed(out@, n) {
                        let i = choose|i: int| 0 <= i < out@.len() && #[trigger] out@[i]@ == n;
                        if i == p {
                            assert(self.themes@[k as int].name@ == n);
                        } else {
                            if i < p {
                                assert(old_out[i] == out@[i]);
                            } else {
                                assert(old_out[i - 1] == out@[i]);
                            }
                            assert(listed(old_out, n));
                            assert(named_among(self.themes@, k as int, n));
                            let w = choose|w: int| 0 <= w < k && #[trigger] self.themes@[w].name@ == n;
                            assert(self.themes@[w].name@ == n);
                        }
                    }
                    if !named_among(self.themes@, k + 1, n) {
                        assert(!listed(out@, n));
                    }
                }
            }
            k = k + 1;
        }
        proof {
            assert forall|n: Seq<char>| #[trigger] self.themes().contains_key(n) <==> listed(out@, n) by {
                lemma_defs_map_keys(self.themes@, n);
                assert(named_among(self.themes@, k as int, n) <==> listed(out@, n));
            }
        }
        out
    }

    /// Whether a theme of that name is held.
    pub fn contains(&self, name: &str) -> (res: bool)
        ensures
            res == self.themes().contains_key(name@),
    {
        proof {
            use_type_invariant(&*self);
        }
        proof {
            lemma_defs_map_keys(self.themes@, name@);
        }
        self.position(name).is_some()
    }

    /// The theme in use.
    pub fn current_theme(&self) -> (res: &TerminalTheme)
        ensures
            self.themes().contains_key(self.current_name()),
            *res == self.themes()[self.current_name()],
    {
        proof {
            use_type_invariant(&*self);
        }
        proof {
            lemma_defs_map_keys(self.themes@, self.current_theme_name@);
        }
        match self.position(self.current_theme_name.as_str()) {
            Some(i) => {
                proof {
                    lemma_defs_map_has(self.themes@, i as int);
                }
                &self.themes[i].theme
            },
            None => {
                proof {
                    let k = choose|k: int|
                        0 <= k < self.themes@.len() && #[trigger] self.themes@[k].name@
                            == self.current_theme_name@;
                    assert(self.themes@[k].name@ != self.current_theme_name@);
                }
                &self.themes[0].theme
            },
        }
    }

    /// The name of the theme in use.
    pub fn current_theme_name(&self) -> (res: &str)
        ensures
            res@ == self.current_name(),
    {
        self.current_theme_name.as_str()
    }

    /// The theme of that name, if one is held.
    pub fn get_theme(&self, name: &str) -> (res: Option<&TerminalTheme>)
        ensures
            match res {
                Some(t) => self.themes().contains_key(name@) && *t == self.themes()[name@],
                None => !self.themes().contains_key(name@),
            },
    {
        proof {
            use_type_invariant(&*self);
        }
        proof {
            lemma_defs_map_keys(self.themes@, name@);
        }
        match self.position(name) {
            Some(i) => {
                proof {
                    lemma_defs_map_has(self.themes@, i as int);
                }
                Some(&self.themes[i].theme)
            },
            None => None,
        }
    }

    /// Switches to the theme of that name; returns whether one is held, and
    /// changes nothing when none is.
    pub fn set_theme(&mut self, name: &str) -> (res: bool)
        ensures
            res == old(self).themes().contains_key(name@),
            final(self).themes() == old(self).themes(),
            final(self).current_name() == (if res {
                name@
            } else {
                old(self).current_name()
            }),
            final(self).themes().contains_key(final(self).current_name()),
    {
        proof {
            use_type_invariant(&*self);
        }
        if self.contains(name) {
            self.current_theme_name = String::from_str(name);
            true
        } else {
            false
        }
    }

    /// Adds a theme, or replaces the one of the same name; the theme in use
    /// stays selected by name.
    pub fn add_theme(&mut self, definition: ThemeDefinition)
        ensures
            final(self).themes() == old(self).themes().insert(definition.name@, definition.theme),
            final(self).current_name() == old(self).current_name(),
            final(self).themes().contains_key(final(self).current_name()),
    {
        proof {
            use_type_invariant(&*self);
        }
        let ghost old_defs = self.themes@;
        let found = self.position(definition.name.as_str());
        // The list is taken out by swapping in a one-theme manager, so that
        // the manager holds its theme in use at every step.
        let single = ThemeDefinition { name: String::from_str(definition.name.as_str()), theme: definition.theme };
        let mut held = ThemeManager {
            themes: vec![single],
            current_theme_name: String::from_str(definition.name.as_str()),
        };
        std::mem::swap(self, &mut held);
        let ThemeManager { mut themes, current_theme_name } = held;
        match found {
            Some(i) => {
                proof {
                    lemma_defs_map_replace(old_defs, i as int, definition);
                }
                themes.set(i, definition);
            },
            None => {
                proof {
                    lemma_defs_map_push(old_defs, definition);
                    assert forall|a: int, b: int|
                        0 <= a < b < old_defs.push(definition).len() implies #[trigger] old_defs.push(
                        definition,
                    )[a].name@ != #[trigger] old_defs.push(definition)[b].name@ by {
                        if b == old_defs.len() {
                            assert(old_defs[a].name@ != definition.name@);
                        }
                    }
                }
                themes.push(definition);
            },
        }
        *self = ThemeManager { themes, current_theme_name };
    }
}

/// A theme added under a name is what that name then gives back; every
/// other name gives back what it gave before.
pub proof fn lemma_get_after_add(before: ThemeManager, after: ThemeManager, definition: ThemeDefinition)
    requires
        after.themes() == before.themes().insert(definition.name@, definition.theme),
    ensures
        after.themes().contains_key(definition.name@),
        after.themes()[definition.name@] == definition.theme,
        forall|n: Seq<char>|
            n != definition.name@ ==> (#[trigger] after.themes().contains_key(n) == before.themes().contains_key(n)
                && (before.themes().contains_key(n) ==> after.themes()[n] == before.themes()[n])),
{
}

/// After switching to a held theme, the theme in use is the one of that
/// name.
pub proof fn lemma_current_after_set(before: ThemeManager, after: ThemeManager, name: Seq<char>)
    requires
        before.themes().contains_key(name),
        after.themes() == before.themes(),
        after.current_name() == name,
    ensures
        after.themes().contains_key(after.current_name()),
        after.themes()[after.current_name()] == before.themes()[name],
{
}

} // verus!
