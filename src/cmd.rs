//! A command line kept as indented lines of words, for showing it to the
//! operator line by line and for handing its words to a process.
use vstd::prelude::*;
use vstd::string::*;

verus! {

/// Spaces per level of indentation.
pub const INDENTATION_WIDTH: usize = 4;

/// One line of a command line: its words, the first carrying the indentation.
#[derive(Debug, Clone)]
pub struct Line {
    words: Vec<String>,
}

/// A command line: its lines in order.
#[derive(Debug, Clone)]
pub struct CommandLine {
    lines: Vec<Line>,
}

/// `w` preceded by `depth` levels of indentation.
pub open spec fn indented(w: Seq<char>, depth: nat) -> Seq<char> {
    Seq::new(depth * 4, |_i: int| ' ') + w
}

pub open spec fn strs_view(v: Seq<&str>) -> Seq<Seq<char>> {
    v.map_values(|s: &str| s@)
}

/// All the words of all the lines, in order.
pub open spec fn flatten(lines: Seq<Seq<Seq<char>>>) -> Seq<Seq<char>>
    decreases lines.len(),
{
    if lines.len() == 0 {
        Seq::empty()
    } else {
        flatten(lines.drop_last()) + lines.last()
    }
}

impl View for Line {
    type V = Seq<Seq<char>>;

    closed spec fn view(&self) -> Seq<Seq<char>> {
        self.words@.map_values(|w: String| w@)
    }
}

impl View for CommandLine {
    type V = Seq<Seq<Seq<char>>>;

    closed spec fn view(&self) -> Seq<Seq<Seq<char>>> {
        self.lines@.map_values(|l: Line| l@)
    }
}

impl Line {
    /// `word` indented by `indentation_depth` levels.
    fn indent_word(word: &str, indentation_depth: usize) -> (r: String)
        requires
            indentation_depth * 4 <= usize::MAX,
        ensures
            r@ == indented(word@, indentation_depth as nat),
    {
        let n: usize = indentation_depth * INDENTATION_WIDTH;
        let mut out = String::new();
        let mut i: usize = 0;
        while i < n
            invariant
                i <= n,
                out@ =~= Seq::new(i as nat, |_j: int| ' '),
            decreases n - i,
        {
            out.append(" ");
            proof {
                reveal_strlit(" ");
            }
            assert(out@ =~= Seq::new((i + 1) as nat, |_j: int| ' '));
            i = i + 1;
        }
        out.append(word);
        assert(out@ =~= indented(word@, indentation_depth as nat));
        out
    }

    /// A line of `words`, the first of them indented.
    pub fn from_words(words: &[&str], indentation_depth: usize) -> (r: Line)
        requires
            indentation_depth * 4 <= usize::MAX,
        ensures
            r@.len() == words@.len(),
            words@.len() > 0 ==> r@[0] == indented(words@[0]@, indentation_depth as nat),
            forall|i: int| 1 <= i < words@.len() ==> r@[i] == words@[i]@,
    {
        let mut out: Vec<String> = Vec::new();
        let mut i: usize = 0;
        while i < words.len()
            invariant
                i <= words@.len(),
                out@.len() == i,
                i > 0 ==> out@[0]@ == indented(words@[0]@, indentation_depth as nat),
                forall|j: int| 1 <= j < i ==> out@[j]@ == words@[j]@,
                indentation_depth * 4 <= usize::MAX,
            decreases words@.len() - i,
        {
            if i == 0 {
                out.push(Self::indent_word(words[0], indentation_depth));
            } else {
                out.push(String::from_str(words[i]));
            }
            i = i + 1;
        }
        Line { words: out }
    }

    /// A line of the single `word`, indented.
    pub fn from_word(word: &str, indentation_depth: usize) -> (r: Line)
        requires
            indentation_depth * 4 <= usize::MAX,
        ensures
            r@ == seq![indented(word@, indentation_depth as nat)],
    {
        let mut words: Vec<String> = Vec::new();
        words.push(Self::indent_word(word, indentation_depth));
        let r = Line { words };
        assert(r@ =~= seq![indented(word@, indentation_depth as nat)]);
        r
    }

    /// The words of the line, in order.
    pub fn iter(&self) -> (r: Vec<&str>)
        ensures
            strs_view(r@) == self@,
    {
        let mut out: Vec<&str> = Vec::new();
        let mut i: usize = 0;
        while i < self.words.len()
            invariant
                i <= self.words@.len(),
                out@.len() == i,
                strs_view(out@) =~= self@.subrange(0, i as int),
            decreases self.words@.len() - i,
        {
            out.push(self.words[i].as_str());
            assert(strs_view(out@) =~= self@.subrange(0, i + 1));
            i = i + 1;
        }
        assert(self@.subrange(0, self@.len() as int) =~= self@);
        out
    }

    /// A line with the same words.
    pub fn duplicate(&self) -> (r: Line)
        ensures
            r@ == self@,
    {
        let mut out: Vec<String> = Vec::new();
        let mut i: usize = 0;
        while i < self.words.len()
            invariant
                i <= self.words@.len(),
                out@.len() == i,
                out@.map_values(|w: String| w@) =~= self@.subrange(0, i as int),
            decreases self.words@.len() - i,
        {
            out.push(String::from_str(self.words[i].as_str()));
            assert(out@.map_values(|w: String| w@) =~= self@.subrange(0, i + 1));
            i = i + 1;
        }
        let r = Line { words: out };
        assert(r@ =~= self@);
        r
    }
}

impl CommandLine {
    /// An empty command line.
    pub fn new() -> (r: CommandLine)
        ensures
            r@ == Seq::<Seq<Seq<char>>>::empty(),
    {
        let r = CommandLine { lines: Vec::new() };
        assert(r@ =~= Seq::<Seq<Seq<char>>>::empty());
        r
    }

    /// Appends `line` at the end.
    pub fn push_line(&mut self, line: Line)
        ensures
            final(self)@ == old(self)@.push(line@),
    {
        self.lines.push(line);
        assert(self@ =~= old(self)@.push(line@));
    }

    /// The words of every line, in order.
    pub fn iter_words(&self) -> (r: Vec<&str>)
        ensures
            strs_view(r@) == flatten(self@),
    {
        let mut out: Vec<&str> = Vec::new();
        let mut i: usize = 0;
        while i < self.lines.len()
            invariant
                i <= self.lines@.len(),
                strs_view(out@) =~= flatten(self@.subrange(0, i as int)),
            decreases self.lines@.len() - i,
        {
            let line = &self.lines[i];
            let mut k: usize = 0;
            let ghost before = strs_view(out@);
            assert(before.len() == out@.len());
            while k < line.words.len()
                invariant
                    k <= line.words@.len(),
                    i < self.lines@.len(),
                    *line == self.lines@[i as int],
                    out@.len() == before.len() + k,
                    strs_view(out@) =~= before + line@.subrange(0, k as int),
                decreases line.words@.len() - k,
            {
                let ghost prev = out@;
                out.push(line.words[k].as_str());
                assert(line@[k as int] == line.words@[k as int]@);
                assert(strs_view(out@) =~= strs_view(prev).push(line@[k as int]));
                assert(line@.subrange(0, k + 1) =~= line@.subrange(0, k as int).push(line@[k as int]));
                assert(strs_view(out@) =~= before + line@.subrange(0, k + 1));
                k = k + 1;
            }
            assert(line@.subrange(0, line@.len() as int) =~= line@);
            assert(self@.subrange(0, i + 1).drop_last() =~= self@.subrange(0, i as int));
            i = i + 1;
        }
        assert(self@.subrange(0, self@.len() as int) =~= self@);
        out
    }

    /// The lines, in order.
    pub fn iter_lines(&self) -> (r: Vec<&Line>)
        ensures
            r@.map_values(|l: &Line| l@) == self@,
    {
        let mut out: Vec<&Line> = Vec::new();
        let mut i: usize = 0;
        while i < self.lines.len()
            invariant
                i <= self.lines@.len(),
                out@.len() == i,
                out@.map_values(|l: &Line| l@) =~= self@.subrange(0, i as int),
            decreases self.lines@.len() - i,
        {
            out.push(&self.lines[i]);
            assert(out@.map_values(|l: &Line| l@) =~= self@.subrange(0, i + 1));
            i = i + 1;
        }
        assert(self@.subrange(0, self@.len() as int) =~= self@);
        out
    }

    /// A command line with the same lines.
    pub fn duplicate(&self) -> (r: CommandLine)
        ensures
            r@ == self@,
    {
        let mut out: Vec<Line> = Vec::new();
        let mut i: usize = 0;
        while i < self.lines.len()
            invariant
                i <= self.lines@.len(),
                out@.len() == i,
                out@.map_values(|l: Line| l@) =~= self@.subrange(0, i as int),
            decreases self.lines@.len() - i,
        {
            out.push(self.lines[i].duplicate());
            assert(out@.map_values(|l: Line| l@) =~= self@.subrange(0, i + 1));
            i = i + 1;
        }
        let r = CommandLine { lines: out };
        assert(r@ =~= self@);
        r
    }
}

} // verus!
