use vstd::prelude::*;
use vstd::string::*;

verus! {

/// A named value that announces itself when its storage is reclaimed.
pub struct Application {
    pub name: String,
    pub nicknames: Vec<String>,
}

/// What an [`Application`] holds, as plain text.
pub struct ApplicationView {
    pub name: Seq<char>,
    pub nicknames: Seq<Seq<char>>,
}

/// The texts of `parts` in order, with `separator` between each two neighbours.
pub open spec fn joined(parts: Seq<Seq<char>>, separator: Seq<char>) -> Seq<char>
    decreases parts.len(),
{
    if parts.len() == 0 {
        Seq::empty()
    } else if parts.len() == 1 {
        parts[0]
    } else {
        joined(parts.drop_last(), separator) + separator + parts.last()
    }
}

/// The text of each string of `strings`.
pub open spec fn texts(strings: Seq<String>) -> Seq<Seq<char>> {
    strings.map_values(|s: String| s@)
}

impl ApplicationView {
    /// The line that announces the end of this value: the name, and after it
    /// the nicknames in parentheses when there are any.
    pub open spec fn drop_line(self) -> Seq<char> {
        if self.nicknames.len() == 0 {
            "Dropping "@ + self.name
        } else {
            "Dropping "@ + self.name + " (AKA "@ + joined(self.nicknames, ", "@) + ")"@
        }
    }
}

impl View for Application {
    type V = ApplicationView;

    open spec fn view(&self) -> ApplicationView {
        ApplicationView { name: self.name@, nicknames: texts(self.nicknames@) }
    }
}

/// Joins `parts` into one string, with `separator` between each two neighbours.
pub fn join(parts: &Vec<String>, separator: &str) -> (line: String)
    ensures
        line@ == joined(texts(parts@), separator@),
{
    let mut line = String::new();
    let mut i: usize = 0;
    while i < parts.len()
        invariant
            i <= parts.len(),
            line@ == joined(texts(parts@).take(i as int), separator@),
        decreases parts.len() - i,
    {
        assert(texts(parts@).take(i + 1).drop_last() == texts(parts@).take(i as int));
        if i > 0 {
            line.append(separator);
        }
        line.append(parts[i].as_str());
        i = i + 1;
    }
    assert(texts(parts@).take(i as int) == texts(parts@));
    line
}

impl Application {
    /// The line that announces the end of this value.
    pub fn drop_message(&self) -> (line: String)
        ensures
            line@ == self@.drop_line(),
    {
        let mut line = String::from_str("Dropping ");
        line.append(self.name.as_str());
        if self.nicknames.len() > 0 {
            line.append(" (AKA ");
            let nicknames = join(&self.nicknames, ", ");
            line.append(nicknames.as_str());
            line.append(")");
        }
        line
    }
}

} // verus!
