//! Themes: named highlight groups mapping to styles, with optional
//! inheritance from a parent group.

use vstd::prelude::*;
use vstd::string::StringExecFns;
use crate::chars;
use crate::style::{merged, Color, Style};

verus! {

/// The name of a highlight group.
#[derive(Debug, Clone)]
pub struct HighlightGroup {
    name: String,
}

impl View for HighlightGroup {
    type V = Seq<char>;

    closed spec fn view(&self) -> Seq<char> {
        self.name@
    }
}

impl HighlightGroup {
    pub fn new(name: &str) -> (g: HighlightGroup)
        ensures
            g@ == name@,
    {
        HighlightGroup { name: String::from_str(name) }
    }

    /// Returns the name of this highlight group.
    pub fn name(&self) -> (s: &str)
        ensures
            s@ == self@,
    {
        self.name.as_str()
    }
}

/// One group's styling: a style plus an optional parent group to inherit
/// unset fields from.
#[derive(Debug, Clone)]
pub struct ThemeEntry {
    pub style: Style,
    pub parent: Option<HighlightGroup>,
}

/// The parent name of an entry, if any.
pub open spec fn parent_view(e: ThemeEntry) -> Option<Seq<char>> {
    match e.parent {
        Some(p) => Some(p@),
        None => None,
    }
}

impl ThemeEntry {
    /// Merges another entry into this one: an entry that already inherits
    /// keeps everything; otherwise it takes the other's parent, and its own
    /// set style fields win over the other's.
    pub fn merge_onto(&mut self, other: &ThemeEntry)
        ensures
            parent_view(*old(self)) is Some ==> *final(self) == *old(self),
            parent_view(*old(self)) is None ==> {
                &&& final(self).style == merged(old(self).style, other.style)
                &&& parent_view(*final(self)) == parent_view(*other)
            },
    {
        if self.parent.is_some() {
            return ;
        }
        match &other.parent {
            Some(p) => {
                self.parent = Some(HighlightGroup { name: p.name.clone() });
            },
            None => {
                self.parent = None;
            },
        }
        self.style = other.style.force_applied(self.style);
    }
}

/// A theme as read from configuration, before resolution.
#[derive(Debug, Clone)]
pub struct RawTheme {
    /// The name of the theme.
    pub name: String,
    /// The name of a theme this one inherits from.
    pub inherits: Option<String>,
    /// The groups of the theme.
    pub groups: Vec<(HighlightGroup, ThemeEntry)>,
}

/// The first entry stored under the given group name.
pub open spec fn find_entry(groups: Seq<(HighlightGroup, ThemeEntry)>, name: Seq<char>) -> Option<
    ThemeEntry,
>
    decreases groups.len(),
{
    if groups.len() == 0 {
        None
    } else if groups[0].0@ == name {
        Some(groups[0].1)
    } else {
        find_entry(groups.drop_first(), name)
    }
}

/// The style of a group: its own entry's style, with unset fields filled
/// from its parent chain. `fuel` bounds the walk so that a cycle among
/// parents ends the walk instead of continuing it forever.
pub open spec fn resolve_chain(
    groups: Seq<(HighlightGroup, ThemeEntry)>,
    name: Seq<char>,
    acc: Style,
    fuel: nat,
) -> Style
    decreases fuel,
{
    if fuel == 0 {
        acc
    } else {
        match find_entry(groups, name) {
            None => acc,
            Some(e) => {
                let acc2 = merged(acc, e.style);
                match parent_view(e) {
                    None => acc2,
                    Some(p) => resolve_chain(groups, p, acc2, (fuel - 1) as nat),
                }
            },
        }
    }
}

/// A theme ready for use: a list of groups, looked up by name.
#[derive(Debug, Clone)]
pub struct Theme {
    pub groups: Vec<(HighlightGroup, ThemeEntry)>,
}

impl Theme {
    /// Resolves the style of the given highlight group, walking up the
    /// parent chain; a chain longer than the number of groups must contain
    /// a cycle and is cut off there.
    pub fn resolve(&self, group: &HighlightGroup) -> (s: Style)
        requires
            self.groups@.len() < usize::MAX,
        ensures
            s == resolve_chain(
                self.groups@,
                group@,
                Style::unset(),
                (self.groups@.len() + 1) as nat,
            ),
    {
        let mut style = Style::new();
        let mut current = group.name.clone();
        let mut fuel = self.groups.len() + 1;
        loop
            invariant
                fuel <= self.groups@.len() + 1,
                resolve_chain(
                    self.groups@,
                    group@,
                    Style::unset(),
                    (self.groups@.len() + 1) as nat,
                ) == resolve_chain(self.groups@, current@, style, fuel as nat),
            decreases fuel,
        {
            if fuel == 0 {
                return style;
            }
            let found = self.find(current.as_str());
            match found {
                None => {
                    proof {
                        assert(resolve_chain(self.groups@, current@, style, fuel as nat)
                            == style);
                    }
                    return style;
                },
                Some(at) => {
                    let entry_style = self.groups[at].1.style;
                    let next = match &self.groups[at].1.parent {
                        Some(p) => Some(p.name.clone()),
                        None => None,
                    };
                    style = style.merge(entry_style);
                    match next {
                        None => {
                            return style;
                        },
                        Some(p) => {
                            current = p;
                            fuel = fuel - 1;
                        },
                    }
                },
            }
        }
    }

    /// Returns the index of the first group with the given name.
    fn find(&self, name: &str) -> (r: Option<usize>)
        ensures
            match r {
                Some(i) => {
                    &&& i < self.groups@.len()
                    &&& self.groups@[i as int].0@ == name@
                    &&& find_entry(self.groups@, name@) == Some(self.groups@[i as int].1)
                    &&& forall|j: int| 0 <= j < i ==> self.groups@[j].0@ != name@
                },
                None => find_entry(self.groups@, name@) is None,
            },
    {
        let query = chars::chars_of(name);
        proof {
            assert(self.groups@.subrange(0, self.groups@.len() as int) =~= self.groups@);
        }
        let mut i: usize = 0;
        while i < self.groups.len()
            invariant
                i <= self.groups@.len(),
                query@ == name@,
                forall|j: int| 0 <= j < i ==> self.groups@[j].0@ != name@,
                find_entry(self.groups@, name@) == find_entry(
                    self.groups@.subrange(i as int, self.groups@.len() as int),
                    name@,
                ),
            decreases self.groups@.len() - i,
        {
            let candidate = chars::chars_of(self.groups[i].0.name());
            if chars::chars_eq(candidate.as_slice(), query.as_slice()) {
                return Some(i);
            }
            proof {
                let tail = self.groups@.subrange(i as int, self.groups@.len() as int);
                assert(tail.drop_first() =~= self.groups@.subrange(
                    i + 1,
                    self.groups@.len() as int,
                ));
            }
            i = i + 1;
        }
        None
    }

    /// Merges this theme over another theme: entries shared with the other
    /// theme are merged entry-wise, and groups only the other theme has are
    /// appended.
    pub fn merge_onto(&mut self, other: &Theme)
        ensures
            final(self).groups@.len() >= old(self).groups@.len(),
            forall|i: int|
                0 <= i < old(self).groups@.len() ==> (#[trigger] final(self).groups@[i]).0@
                    == old(self).groups@[i].0@,
    {
        let mut k: usize = 0;
        while k < other.groups.len()
            invariant
                k <= other.groups@.len(),
                self.groups@.len() >= old(self).groups@.len(),
                forall|i: int|
                    0 <= i < old(self).groups@.len() ==> (#[trigger] self.groups@[i]).0@ == old(
                        self,
                    ).groups@[i].0@,
            decreases other.groups@.len() - k,
        {
            let name = other.groups[k].0.name();
            let found = self.find(name);
            match found {
                Some(at) => {
                    let incoming = ThemeEntry {
                        style: other.groups[k].1.style,
                        parent: match &other.groups[k].1.parent {
                            Some(p) => Some(HighlightGroup { name: p.name.clone() }),
                            None => None,
                        },
                    };
                    let pair = &mut self.groups[at];
                    pair.1.merge_onto(&incoming);
                    proof {
                        assert forall|i: int|
                            0 <= i < old(self).groups@.len() implies (
                        #[trigger] self.groups@[i]).0@ == old(self).groups@[i].0@ by {}
                    }
                },
                None => {
                    let copy = (
                        HighlightGroup { name: other.groups[k].0.name.clone() },
                        ThemeEntry {
                            style: other.groups[k].1.style,
                            parent: match &other.groups[k].1.parent {
                                Some(p) => Some(HighlightGroup { name: p.name.clone() }),
                                None => None,
                            },
                        },
                    );
                    self.groups.push(copy);
                },
            }
            k = k + 1;
        }
    }
}

/// One builtin group of the default theme.
fn default_group(name: &str, style: Style, parent: Option<&str>) -> (g: (
    HighlightGroup,
    ThemeEntry,
))
    ensures
        g.0@ == name@,
        g.1.style == style,
        match parent {
            Some(p) => parent_view(g.1) == Some(p@),
            None => parent_view(g.1) is None,
        },
{
    let parent_group = match parent {
        Some(p) => Some(HighlightGroup::new(p)),
        None => None,
    };
    (HighlightGroup::new(name), ThemeEntry { style, parent: parent_group })
}

impl Default for Theme {
    /// The builtin theme: the base interface colors and the groups that
    /// inherit from them.
    fn default() -> (t: Theme)
        ensures
            t.groups@.len() == 11,
    {
        let fg0 = Color::rgb(220, 220, 220);
        let fg1 = Color::rgb(140, 140, 140);
        let bg0 = Color::rgb(30, 30, 30);
        let bg1 = Color::rgb(40, 40, 40);
        let bg2 = Color::rgb(50, 50, 50);
        let green = Color::rgb(100, 200, 0);
        let orange = Color::rgb(255, 100, 0);
        let red = Color::rgb(255, 0, 0);

        let mut groups: Vec<(HighlightGroup, ThemeEntry)> = Vec::new();
        let g = default_group("ui", Style::new().bg(bg0).fg(fg0), None);
        groups.push(g);
        let g = default_group("ui.statusbar", Style::new().bg(bg1), Some("ui"));
        groups.push(g);
        let g = default_group(
            "ui.statusbar.mode.insert",
            Style::new().bg(green).fg(bg0).bold(),
            Some("ui.statusbar"),
        );
        groups.push(g);
        let g = default_group(
            "ui.statusbar.mode.command",
            Style::new().bg(orange).fg(bg0).bold(),
            Some("ui.statusbar"),
        );
        groups.push(g);
        let g = default_group(
            "ui.statusbar.message.error",
            Style::new().bg(red).fg(bg0).bold(),
            Some("ui.statusbar"),
        );
        groups.push(g);
        let g = default_group("ui.pane", Style::new(), Some("ui"));
        groups.push(g);
        let g = default_group("ui.pane.gutter", Style::new().bg(bg1).fg(fg1), Some("ui.pane"));
        groups.push(g);
        let g = default_group(
            "ui.pane.gutter.cursor",
            Style::new().fg(green).bold(),
            Some("ui.pane.gutter"),
        );
        groups.push(g);
        let g = default_group("ui.overlay", Style::new().bg(bg2), Some("ui"));
        groups.push(g);
        let g = default_group("ui.overlay.command_prompt", Style::new(), Some("ui.overlay"));
        groups.push(g);
        let g = default_group(
            "ui.overlay.command_prompt.selected",
            Style::new().fg(orange).bold(),
            Some("ui.overlay.command_prompt"),
        );
        groups.push(g);
        Theme { groups }
    }
}

} // verus!
