//! The command palette: a query line over the registered commands, with
//! substring filtering, selection and autocompletion.

use vstd::prelude::*;
use vstd::string::StringExecFns;
use crate::chars;
use crate::chars::{is_unicode_space, match_at};
use crate::context::RenderingContext;
use crate::frame::Frame;
use crate::style::Style;
use crate::text::Span;
use crate::theme::HighlightGroup;
use crate::viewport::Viewport;
use crate::widget::{ContainerBuilder, Widget};

verus! {

/// The number of leading white-space characters of `s`.
pub open spec fn leading_spaces(s: Seq<char>) -> nat
    decreases s.len(),
{
    if s.len() == 0 {
        0
    } else if !is_unicode_space(s[0]) {
        0
    } else {
        1 + leading_spaces(s.drop_first())
    }
}

/// The length of the leading run of non-space characters of `s`.
pub open spec fn leading_word(s: Seq<char>) -> nat
    decreases s.len(),
{
    if s.len() == 0 {
        0
    } else if is_unicode_space(s[0]) {
        0
    } else {
        1 + leading_word(s.drop_first())
    }
}

/// `leading_spaces` counts exactly the white space at the front.
pub proof fn lemma_leading_spaces(s: Seq<char>)
    ensures
        leading_spaces(s) <= s.len(),
        forall|k: int| 0 <= k < leading_spaces(s) ==> is_unicode_space(s[k]),
        leading_spaces(s) < s.len() ==> !is_unicode_space(s[leading_spaces(s) as int]),
    decreases s.len(),
{
    if s.len() > 0 && is_unicode_space(s[0]) {
        lemma_leading_spaces(s.drop_first());
        assert forall|k: int| 0 <= k < leading_spaces(s) implies is_unicode_space(s[k]) by {
            if k > 0 {
                assert(s.drop_first()[k - 1] == s[k]);
            }
        }
    }
}

/// `leading_word` counts exactly the non-space run at the front.
pub proof fn lemma_leading_word(s: Seq<char>)
    ensures
        leading_word(s) <= s.len(),
        forall|k: int| 0 <= k < leading_word(s) ==> !is_unicode_space(s[k]),
        leading_word(s) < s.len() ==> is_unicode_space(s[leading_word(s) as int]),
    decreases s.len(),
{
    if s.len() > 0 && !is_unicode_space(s[0]) {
        lemma_leading_word(s.drop_first());
        assert forall|k: int| 0 <= k < leading_word(s) implies !is_unicode_space(s[k]) by {
            if k > 0 {
                assert(s.drop_first()[k - 1] == s[k]);
            }
        }
    }
}

/// The white-space separated words of `s`, in order.
pub open spec fn words_of(s: Seq<char>) -> Seq<Seq<char>>
    decreases s.len(),
    via words_of_decreases
{
    let a = leading_spaces(s);
    if a >= s.len() {
        Seq::empty()
    } else {
        let rest = s.subrange(a as int, s.len() as int);
        let l = leading_word(rest);
        seq![rest.subrange(0, l as int)] + words_of(
            rest.subrange(l as int, rest.len() as int),
        )
    }
}

#[via_fn]
proof fn words_of_decreases(s: Seq<char>) {
    lemma_leading_spaces(s);
    let a = leading_spaces(s);
    if a < s.len() {
        let rest = s.subrange(a as int, s.len() as int);
        lemma_leading_word(rest);
        assert(!is_unicode_space(rest[0]));
        assert(leading_word(rest) >= 1);
    }
}

/// The first white-space separated word of `s`; empty when there is none.
pub open spec fn first_word(s: Seq<char>) -> Seq<char> {
    if words_of(s).len() == 0 {
        Seq::empty()
    } else {
        words_of(s)[0]
    }
}

/// A command's name and description.
#[derive(Debug, Clone)]
pub struct CommandInfo {
    /// The name of the command.
    pub name: String,
    /// A description of the command.
    pub description: String,
}

/// The (name, description) views of a command.
pub open spec fn info_view(c: CommandInfo) -> (Seq<char>, Seq<char>) {
    (c.name@, c.description@)
}

/// The views of the commands whose names contain the query as a substring,
/// in order.
pub open spec fn filtered_views(commands: Seq<(Seq<char>, Seq<char>)>, query: Seq<char>) -> Seq<
    (Seq<char>, Seq<char>),
>
    decreases commands.len(),
{
    if commands.len() == 0 {
        Seq::empty()
    } else {
        let rest = filtered_views(commands.drop_last(), query);
        if exists|k: int| match_at(commands.last().0, query, k) {
            rest.push(commands.last())
        } else {
            rest
        }
    }
}

/// The command palette: the query, all commands, and the filtered list with
/// a selected index.
#[derive(Debug)]
pub struct CommandPalette {
    /// The current query: the command name, then its arguments, separated
    /// by white space.
    query: String,
    /// The index of the currently selected filtered command.
    selected_index: usize,
    /// The commands whose names contain the first word of the query.
    filtered_commands: Vec<CommandInfo>,
    /// All commands that are available.
    commands: Vec<CommandInfo>,
}

impl CommandPalette {
    pub closed spec fn spec_query(&self) -> Seq<char> {
        self.query@
    }

    pub closed spec fn spec_selected(&self) -> usize {
        self.selected_index
    }

    pub closed spec fn spec_filtered(&self) -> Seq<(Seq<char>, Seq<char>)> {
        self.filtered_commands@.map_values(|c: CommandInfo| info_view(c))
    }

    pub closed spec fn spec_commands(&self) -> Seq<(Seq<char>, Seq<char>)> {
        self.commands@.map_values(|c: CommandInfo| info_view(c))
    }

    /// A new palette over the given commands: empty query, every command
    /// listed, the first selected.
    pub fn new(commands: Vec<CommandInfo>) -> (p: CommandPalette)
        ensures
            p.spec_query() == Seq::<char>::empty(),
            p.spec_selected() == 0,
            p.spec_commands() == commands@.map_values(|c: CommandInfo| info_view(c)),
            p.spec_filtered() == p.spec_commands(),
    {
        let mut filtered: Vec<CommandInfo> = Vec::new();
        let mut i: usize = 0;
        while i < commands.len()
            invariant
                i <= commands@.len(),
                filtered@.len() == i,
                forall|k: int| 0 <= k < i ==> info_view(#[trigger] filtered@[k]) == info_view(
                    commands@[k],
                ),
            decreases commands@.len() - i,
        {
            let copy = CommandInfo {
                name: commands[i].name.clone(),
                description: commands[i].description.clone(),
            };
            filtered.push(copy);
            i = i + 1;
        }
        proof {
            assert(filtered@.map_values(|c: CommandInfo| info_view(c)) =~= commands@.map_values(
                |c: CommandInfo| info_view(c),
            ));
        }
        CommandPalette { query: String::new(), selected_index: 0, filtered_commands: filtered,
        commands }
    }

    /// Returns the currently selected command, or `None` when the filtered
    /// list is empty or the selection out of range.
    pub fn get_selected_command(&self) -> (r: Option<&CommandInfo>)
        ensures
            match r {
                Some(c) => self.spec_selected() < self.spec_filtered().len() && info_view(*c)
                    == self.spec_filtered()[self.spec_selected() as int],
                None => self.spec_selected() >= self.spec_filtered().len(),
            },
    {
        self.get_filtered_command(self.selected_index)
    }

    /// Returns the filtered command at the given index.
    pub fn get_filtered_command(&self, index: usize) -> (r: Option<&CommandInfo>)
        ensures
            match r {
                Some(c) => index < self.spec_filtered().len() && info_view(*c)
                    == self.spec_filtered()[index as int],
                None => index >= self.spec_filtered().len(),
            },
    {
        if index < self.filtered_commands.len() {
            Some(&self.filtered_commands[index])
        } else {
            None
        }
    }

    /// Returns the command name written in the query: its first
    /// white-space separated word.
    pub fn command_query(&self) -> (r: String)
        ensures
            r@ == first_word(self.spec_query()),
    {
        let cs = chars::chars_of(self.query.as_str());
        let n = cs.len();
        let ghost s = self.query@;
        proof {
            lemma_leading_spaces(s);
        }
        let mut a: usize = 0;
        while a < n && chars::char_is_space(cs[a])
            invariant
                a <= n,
                n == s.len(),
                cs@ == s,
                forall|k: int| 0 <= k < a ==> is_unicode_space(s[k]),
                a <= leading_spaces(s),
            decreases n - a,
        {
            proof {
                lemma_leading_spaces(s);
                assert(a + 1 <= leading_spaces(s)) by {
                    if a == leading_spaces(s) {
                        assert(!is_unicode_space(s[a as int]));
                    }
                }
            }
            a = a + 1;
        }
        proof {
            lemma_leading_spaces(s);
            assert(a == leading_spaces(s)) by {
                if a < leading_spaces(s) {
                    assert(is_unicode_space(s[a as int]));
                }
            }
        }
        if a >= n {
            proof {
                assert(words_of(s).len() == 0);
            }
            return String::new();
        }
        let ghost rest = s.subrange(a as int, s.len() as int);
        proof {
            lemma_leading_word(rest);
            assert(forall|k: int| 0 <= k < rest.len() ==> rest[k] == s[a + k]);
        }
        let mut e: usize = a;
        while e < n && !chars::char_is_space(cs[e])
            invariant
                a <= e <= n,
                n == s.len(),
                cs@ == s,
                rest == s.subrange(a as int, s.len() as int),
                forall|k: int| 0 <= k < rest.len() ==> rest[k] == s[a + k],
                forall|k: int| a <= k < e ==> !is_unicode_space(s[k]),
                e - a <= leading_word(rest),
            decreases n - e,
        {
            proof {
                lemma_leading_word(rest);
                assert(e - a + 1 <= leading_word(rest)) by {
                    if e - a == leading_word(rest) {
                        assert(is_unicode_space(rest[e - a]));
                    }
                }
            }
            e = e + 1;
        }
        proof {
            lemma_leading_word(rest);
            assert(e - a == leading_word(rest)) by {
                if e - a < leading_word(rest) {
                    assert(!is_unicode_space(rest[e - a]));
                    assert(e < n);
                }
            }
        }
        let mut word: Vec<char> = Vec::new();
        let mut i: usize = a;
        while i < e
            invariant
                a <= i <= e <= n,
                n == s.len(),
                cs@ == s,
                word@ == s.subrange(a as int, i as int),
            decreases e - i,
        {
            word.push(cs[i]);
            i = i + 1;
            proof {
                assert(word@ =~= s.subrange(a as int, i as int));
            }
        }
        proof {
            assert(first_word(s) == rest.subrange(0, leading_word(rest) as int));
            assert(word@ =~= rest.subrange(0, leading_word(rest) as int));
        }
        chars::string_of(word.as_slice())
    }

    /// Parses the query into the command to run and its arguments: the
    /// selected command's name (or the raw query when nothing is selected),
    /// and the query's words after the first.
    pub fn parse_query(&self) -> (r: (String, Vec<String>))
        ensures
            r.0@ == if self.spec_selected() < self.spec_filtered().len() {
                self.spec_filtered()[self.spec_selected() as int].0
            } else {
                self.spec_query()
            },
            words_of(self.spec_query()).len() == 0 ==> r.1@.len() == 0,
            words_of(self.spec_query()).len() > 0 ==> r.1@.map_values(|a: String| a@) == words_of(
                self.spec_query(),
            ).skip(1),
    {
        let command = match self.get_selected_command() {
            Some(c) => String::from_str(c.name.as_str()),
            None => String::from_str(self.query.as_str()),
        };
        let all = self.words();
        let mut args: Vec<String> = Vec::new();
        if all.len() == 0 {
            return (command, args);
        }
        let mut i: usize = 1;
        while i < all.len()
            invariant
                1 <= i <= all@.len(),
                all@.map_values(|a: String| a@) == words_of(self.spec_query()),
                args@.len() == i - 1,
                forall|k: int|
                    0 <= k < i - 1 ==> (#[trigger] args@[k])@ == words_of(self.spec_query())[k
                        + 1],
            decreases all@.len() - i,
        {
            proof {
                assert(all@[i as int]@ == words_of(self.spec_query())[i as int]);
            }
            let w = String::from_str(all[i].as_str());
            args.push(w);
            i = i + 1;
        }
        proof {
            assert(args@.map_values(|a: String| a@) =~= words_of(self.spec_query()).skip(1));
        }
        (command, args)
    }

    /// All white-space separated words of the query, in order.
    fn words(&self) -> (r: Vec<String>)
        ensures
            r@.map_values(|a: String| a@) == words_of(self.spec_query()),
    {
        let cs = chars::chars_of(self.query.as_str());
        let ghost s = self.query@;
        let n = cs.len();
        let mut out: Vec<String> = Vec::new();
        let mut pos: usize = 0;
        proof {
            assert(s.subrange(0, s.len() as int) =~= s);
            assert(out@.map_values(|a: String| a@) + words_of(s) =~= words_of(s));
        }
        while pos < n
            invariant
                pos <= n,
                n == s.len(),
                cs@ == s,
                out@.map_values(|a: String| a@) + words_of(
                    s.subrange(pos as int, s.len() as int),
                ) == words_of(s),
            decreases n - pos,
        {
            let ghost tail = s.subrange(pos as int, s.len() as int);
            proof {
                lemma_leading_spaces(tail);
                assert(forall|k: int| 0 <= k < tail.len() ==> tail[k] == s[pos + k]);
            }
            if chars::char_is_space(cs[pos]) {
                proof {
                    let tail2 = s.subrange(pos + 1, s.len() as int);
                    assert(tail.drop_first() =~= tail2);
                    assert(leading_spaces(tail) == 1 + leading_spaces(tail2));
                    assert(words_of(tail) == words_of(tail2)) by {
                        if leading_spaces(tail) >= tail.len() {
                            assert(leading_spaces(tail2) >= tail2.len());
                        } else {
                            let a = leading_spaces(tail);
                            assert(tail.subrange(a as int, tail.len() as int) =~= tail2.subrange(
                                leading_spaces(tail2) as int,
                                tail2.len() as int,
                            ));
                        }
                    }
                }
                pos = pos + 1;
            } else {
                proof {
                    assert(leading_spaces(tail) == 0);
                    lemma_leading_word(tail);
                    assert(tail.subrange(0, tail.len() as int) =~= tail);
                }
                let mut e: usize = pos;
                while e < n && !chars::char_is_space(cs[e])
                    invariant
                        pos <= e <= n,
                        n == s.len(),
                        cs@ == s,
                        tail == s.subrange(pos as int, s.len() as int),
                        forall|k: int| 0 <= k < tail.len() ==> tail[k] == s[pos + k],
                        forall|k: int| pos <= k < e ==> !is_unicode_space(s[k]),
                        e - pos <= leading_word(tail),
                    decreases n - e,
                {
                    proof {
                        lemma_leading_word(tail);
                        assert(e - pos + 1 <= leading_word(tail)) by {
                            if e - pos == leading_word(tail) {
                                assert(is_unicode_space(tail[e - pos]));
                            }
                        }
                    }
                    e = e + 1;
                }
                proof {
                    lemma_leading_word(tail);
                    assert(e - pos == leading_word(tail)) by {
                        if e - pos < leading_word(tail) {
                            assert(!is_unicode_space(tail[e - pos]));
                            assert(e < n);
                        }
                    }
                    assert(leading_word(tail) >= 1) by {
                        assert(tail.len() > 0 && !is_unicode_space(tail[0]));
                    }
                }
                let mut word: Vec<char> = Vec::new();
                let mut i: usize = pos;
                while i < e
                    invariant
                        pos <= i <= e <= n,
                        n == s.len(),
                        cs@ == s,
                        word@ == s.subrange(pos as int, i as int),
                    decreases e - i,
                {
                    word.push(cs[i]);
                    i = i + 1;
                    proof {
                        assert(word@ =~= s.subrange(pos as int, i as int));
                    }
                }
                let text = chars::string_of(word.as_slice());
                out.push(text);
                proof {
                    let l = leading_word(tail);
                    assert(word@ =~= tail.subrange(0, l as int));
                    assert(words_of(tail) == seq![tail.subrange(0, l as int)] + words_of(
                        tail.subrange(l as int, tail.len() as int),
                    ));
                    assert(tail.subrange(l as int, tail.len() as int) =~= s.subrange(
                        e as int,
                        s.len() as int,
                    ));
                    assert(out@.map_values(|a: String| a@) =~= out@.map_values(
                        |a: String| a@,
                    ).drop_last().push(word@));
                    assert(out@.map_values(|a: String| a@) + words_of(
                        s.subrange(e as int, s.len() as int),
                    ) =~= words_of(s));
                }
                pos = e;
            }
        }
        proof {
            assert(words_of(s.subrange(pos as int, s.len() as int)).len() == 0);
            assert(out@.map_values(|a: String| a@) =~= words_of(s));
        }
        out
    }

    /// Refilters the commands: those whose names contain the query's first
    /// word as a substring stay, and the selection is clamped back into
    /// range.
    pub fn update_filtered_commands(&mut self)
        ensures
            final(self).spec_query() == old(self).spec_query(),
            final(self).spec_commands() == old(self).spec_commands(),
            final(self).spec_filtered() == filtered_views(
                old(self).spec_commands(),
                first_word(old(self).spec_query()),
            ),
            final(self).spec_selected() == if old(self).spec_selected()
                < final(self).spec_filtered().len() {
                old(self).spec_selected() as int
            } else if final(self).spec_filtered().len() > 0 {
                final(self).spec_filtered().len() - 1
            } else {
                0int
            },
    {
        let needle_string = self.command_query();
        let needle = chars::chars_of(needle_string.as_str());
        let mut filtered: Vec<CommandInfo> = Vec::new();
        let mut i: usize = 0;
        while i < self.commands.len()
            invariant
                i <= self.commands@.len(),
                needle@ == first_word(self.spec_query()),
                filtered@.map_values(|c: CommandInfo| info_view(c)) == filtered_views(
                    self.spec_commands().subrange(0, i as int),
                    needle@,
                ),
            decreases self.commands@.len() - i,
        {
            let name_chars = chars::chars_of(self.commands[i].name.as_str());
            let keep = chars::contains_chars(name_chars.as_slice(), needle.as_slice());
            proof {
                let pre = self.spec_commands().subrange(0, i as int);
                let post = self.spec_commands().subrange(0, i + 1);
                assert(post.drop_last() =~= pre);
                assert(post.last() == self.spec_commands()[i as int]);
                assert(self.spec_commands()[i as int] == info_view(self.commands@[i as int]));
                let hay = name_chars@;
                assert(hay == self.spec_commands()[i as int].0);
                assert(keep == (exists|k: int| match_at(hay, needle@, k)));
                assert(keep == (exists|k: int|
                    match_at(self.spec_commands()[i as int].0, needle@, k)));
            }
            if keep {
                let copy = CommandInfo {
                    name: self.commands[i].name.clone(),
                    description: self.commands[i].description.clone(),
                };
                let ghost cv = (copy.name@, copy.description@);
                let ghost before = filtered@;
                filtered.push(copy);
                proof {
                    assert(cv == info_view(self.commands@[i as int]));
                    assert(filtered@.drop_last() =~= before);
                    assert(filtered@.map_values(|c: CommandInfo| info_view(c)) =~= filtered_views(
                        self.spec_commands().subrange(0, i as int),
                        needle@,
                    ).push(cv));
                    assert(filtered@.map_values(|c: CommandInfo| info_view(c)) =~= filtered_views(
                        self.spec_commands().subrange(0, i + 1),
                        needle@,
                    ));
                }
            } else {
                proof {
                    assert(filtered@.map_values(|c: CommandInfo| info_view(c)) =~= filtered_views(
                        self.spec_commands().subrange(0, i + 1),
                        needle@,
                    ));
                }
            }
            i = i + 1;
        }
        proof {
            assert(self.spec_commands().subrange(0, self.spec_commands().len() as int)
                =~= self.spec_commands());
        }
        let last_index = if filtered.len() > 0 {
            filtered.len() - 1
        } else {
            0
        };
        if self.selected_index > last_index {
            self.selected_index = last_index;
        }
        self.filtered_commands = filtered;
    }

    /// Appends a character to the query and refilters.
    pub fn insert_char(&mut self, c: char)
        ensures
            final(self).spec_query() == old(self).spec_query().push(c),
            final(self).spec_commands() == old(self).spec_commands(),
            final(self).spec_filtered() == filtered_views(
                old(self).spec_commands(),
                first_word(old(self).spec_query().push(c)),
            ),
    {
        self.query.push(c);
        self.update_filtered_commands();
    }

    /// Removes the last character of the query and refilters.
    pub fn delete_char(&mut self)
        ensures
            final(self).spec_query() == if old(self).spec_query().len() > 0 {
                old(self).spec_query().drop_last()
            } else {
                old(self).spec_query()
            },
            final(self).spec_commands() == old(self).spec_commands(),
            final(self).spec_filtered() == filtered_views(
                old(self).spec_commands(),
                first_word(final(self).spec_query()),
            ),
    {
        let cs = chars::chars_of(self.query.as_str());
        if cs.len() > 0 {
            let kept = chars::string_of(&cs.as_slice()[0..cs.len() - 1]);
            proof {
                assert(cs@.subrange(0, cs@.len() - 1) =~= self.query@.drop_last());
            }
            self.query = kept;
        }
        self.update_filtered_commands();
    }

    /// Replaces the query without refiltering.
    pub fn set_query(&mut self, query: &str)
        ensures
            final(self).spec_query() == query@,
            final(self).spec_commands() == old(self).spec_commands(),
            final(self).spec_filtered() == old(self).spec_filtered(),
            final(self).spec_selected() == old(self).spec_selected(),
    {
        self.query = String::from_str(query);
    }

    /// Replaces the query with the selected command's name.
    pub fn autocomplete(&mut self)
        ensures
            final(self).spec_commands() == old(self).spec_commands(),
            final(self).spec_filtered() == old(self).spec_filtered(),
            final(self).spec_selected() == old(self).spec_selected(),
            final(self).spec_query() == if old(self).spec_selected() < old(
                self,
            ).spec_filtered().len() {
                old(self).spec_filtered()[old(self).spec_selected() as int].0
            } else {
                old(self).spec_query()
            },
    {
        let name = match self.get_selected_command() {
            Some(c) => Some(String::from_str(c.name.as_str())),
            None => None,
        };
        match name {
            Some(n) => {
                self.query = n;
            },
            None => {},
        }
    }

    /// Autocompletes to the selected command, or selects the next command
    /// when the query is already that command's name.
    pub fn autocomplete_or_next(&mut self)
        requires
            old(self).spec_selected() < usize::MAX,
        ensures
            final(self).spec_commands() == old(self).spec_commands(),
            final(self).spec_filtered() == old(self).spec_filtered(),
    {
        let selected = match self.get_selected_command() {
            Some(c) => Some(String::from_str(c.name.as_str())),
            None => None,
        };
        match selected {
            None => {},
            Some(name) => {
                let qc = chars::chars_of(self.query.as_str());
                let nc = chars::chars_of(name.as_str());
                if chars::chars_eq(qc.as_slice(), nc.as_slice()) {
                    self.select_next_command();
                } else {
                    self.autocomplete();
                }
            },
        }
    }

    /// Selects the next filtered command, wrapping at the end, and writes
    /// its name into the query; a no-op on an empty filtered list.
    pub fn select_next_command(&mut self)
        requires
            old(self).spec_selected() < usize::MAX,
        ensures
            final(self).spec_commands() == old(self).spec_commands(),
            final(self).spec_filtered() == old(self).spec_filtered(),
            old(self).spec_filtered().len() == 0 ==> final(self).spec_selected() == old(
                self,
            ).spec_selected() && final(self).spec_query() == old(self).spec_query(),
            old(self).spec_filtered().len() > 0 ==> {
                &&& final(self).spec_selected() == ((old(self).spec_selected() as int + 1) % (
                old(self).spec_filtered().len() as int))
                &&& final(self).spec_query() == old(self).spec_filtered()[final(self).spec_selected() as int].0
            },
    {
        if self.filtered_commands.len() == 0 {
            return ;
        }
        let bumped = self.selected_index + 1;
        let next = bumped % self.filtered_commands.len();
        proof {
            assert(info_view(self.filtered_commands@[next as int])
                == self.spec_filtered()[next as int]);
        }
        let name = String::from_str(self.filtered_commands[next].name.as_str());
        self.query = name;
        self.selected_index = next;
    }

    /// Selects the previous filtered command, wrapping at the start, and
    /// writes its name into the query; a no-op on an empty filtered list.
    pub fn select_prev_command(&mut self)
        ensures
            final(self).spec_commands() == old(self).spec_commands(),
            final(self).spec_filtered() == old(self).spec_filtered(),
            old(self).spec_filtered().len() == 0 ==> final(self).spec_selected() == old(
                self,
            ).spec_selected() && final(self).spec_query() == old(self).spec_query(),
            old(self).spec_filtered().len() > 0 ==> ({
                let prev = if old(self).spec_selected() == 0 {
                    old(self).spec_filtered().len() - 1
                } else {
                    old(self).spec_selected() - 1
                };
                if prev < old(self).spec_filtered().len() {
                    &&& final(self).spec_selected() == prev
                    &&& final(self).spec_query() == old(self).spec_filtered()[prev as int].0
                } else {
                    &&& final(self).spec_selected() == old(self).spec_selected()
                    &&& final(self).spec_query() == old(self).spec_query()
                }
            }),
    {
        if self.filtered_commands.len() == 0 {
            return ;
        }
        let prev = if self.selected_index == 0 {
            self.filtered_commands.len() - 1
        } else {
            self.selected_index - 1
        };
        if prev >= self.filtered_commands.len() {
            return ;
        }
        proof {
            assert(info_view(self.filtered_commands@[prev as int])
                == self.spec_filtered()[prev as int]);
        }
        let name = String::from_str(self.filtered_commands[prev].name.as_str());
        self.query = name;
        self.selected_index = prev;
    }

    /// Clears the query, refilters (everything matches the empty query)
    /// and selects the first command.
    pub fn clear_query(&mut self)
        ensures
            final(self).spec_query() == Seq::<char>::empty(),
            final(self).spec_commands() == old(self).spec_commands(),
            final(self).spec_filtered() == filtered_views(
                old(self).spec_commands(),
                first_word(Seq::<char>::empty()),
            ),
            final(self).spec_selected() == 0,
    {
        self.query = String::new();
        self.update_filtered_commands();
        self.selected_index = 0;
    }

    /// Renders the palette: the query prompt on the bottom row and the
    /// filtered commands above it, the selected one highlighted.
    pub fn render(&self, frame: &mut Frame, ctx: &RenderingContext, viewport: &Viewport)
        requires
            old(frame).wf(),
            ctx.theme.groups@.len() < usize::MAX,
        ensures
            final(frame).wf(),
            final(frame).spec_width() == old(frame).spec_width(),
            final(frame).spec_height() == old(frame).spec_height(),
            final(frame).spec_cursor() == old(frame).spec_cursor(),
    {
        let height = viewport.height();
        if height == 0 {
            return ;
        }
        let base = HighlightGroup::new("ui.overlay.command_prompt");
        let base_style = ctx.theme.resolve(&base);
        let mut prompt_text = String::from_str("> ");
        prompt_text.append(self.query.as_str());
        let prompt_span = Span::new(prompt_text.as_str());
        let widget = ContainerBuilder::default().with_width(Some(viewport.width())).with_child(
            Widget::Text(prompt_span),
        ).with_style(base_style).build();
        proof {
            crate::widget::lemma_fixed_container_len(
                widget.children@,
                viewport.spec_rect().width,
                base_style,
                crate::text::Alignment::Left,
            );
        }
        viewport.put_widget(frame, height - 1, &widget);
        let selected_group = HighlightGroup::new("ui.overlay.command_prompt.selected");
        let selected_style = ctx.theme.resolve(&selected_group);
        let mut i: usize = 0;
        while i < self.filtered_commands.len()
            invariant
                frame.wf(),
                frame.spec_width() == old(frame).spec_width(),
                frame.spec_height() == old(frame).spec_height(),
                frame.spec_cursor() == old(frame).spec_cursor(),
                height == viewport.spec_rect().height,
                height > 0,
            decreases self.filtered_commands@.len() - i,
        {
            if i > usize::MAX - 2 || height < i + 2 {
                return ;
            }
            let row = height - (i + 2);
            let style = if i == self.selected_index {
                selected_style
            } else {
                Style::new()
            };
            let span = Span::new(self.filtered_commands[i].name.as_str()).with_style(style);
            let line_widget = ContainerBuilder::default().with_width(
                Some(viewport.width()),
            ).with_child(Widget::Text(span)).build();
            proof {
                crate::widget::lemma_fixed_container_len(
                    line_widget.children@,
                    viewport.spec_rect().width,
                    Style::unset(),
                    crate::text::Alignment::Left,
                );
            }
            viewport.put_widget(frame, row, &line_widget);
            i = i + 1;
        }
    }
}

} // verus!
