//! Report sections and their Markdown and plain-text rendering.
use vstd::prelude::*;
use vstd::utf8::encode_utf8;
use crate::text::{push_char, repeat_char};

verus! {

broadcast use vstd::string::group_string_axioms;

/// report section
#[derive(Debug)]
pub struct ReportSection {
    pub title: String,
    pub content: Vec<String>,
    pub subsections: Vec<ReportSection>,
}

/// report format
#[derive(Debug, Clone, Copy)]
pub enum ReportFormat {
    Markdown,
    Text,
}

/// Each line followed by a newline.
pub open spec fn lines_text(ls: Seq<String>) -> Seq<char>
    decreases ls.len(),
{
    if ls.len() == 0 {
        Seq::empty()
    } else {
        lines_text(ls.drop_last()) + ls.last()@ + "\n"@
    }
}

/// Each line as ` line` after `indent` spaces, followed by a newline.
pub open spec fn indented_lines_text(ls: Seq<String>, indent: nat) -> Seq<char>
    decreases ls.len(),
{
    if ls.len() == 0 {
        Seq::empty()
    } else {
        indented_lines_text(ls.drop_last(), indent) + repeat_char(' ', indent) + " "@ + ls.last()@ + "\n"@
    }
}

/// Markdown of a section at heading level `level`: `level` hashes and the
/// title, its lines, a blank line after them if there are any, then its
/// subsections one level deeper.
pub open spec fn section_markdown(s: ReportSection, level: nat) -> Seq<char>
    decreases s,
{
    repeat_char('#', level) + " "@ + s.title@ + "\n\n"@ + lines_text(s.content@)
        + (if s.content@.len() > 0 { "\n"@ } else { Seq::<char>::empty() })
        + sections_markdown(s.subsections@, level + 1)
}

/// Markdown of a list of sections, in order.
pub open spec fn sections_markdown(ss: Seq<ReportSection>, level: nat) -> Seq<char>
    decreases ss,
{
    if ss.len() == 0 {
        Seq::empty()
    } else {
        sections_markdown(ss.drop_last(), level) + section_markdown(ss.last(), level)
    }
}

/// Plain text of a section indented by `indent` spaces: the title, a row of
/// dashes as long as the title in bytes, its lines, a blank line after them
/// if there are any, then its subsections one space deeper.
pub open spec fn section_text(s: ReportSection, indent: nat) -> Seq<char>
    decreases s,
{
    repeat_char(' ', indent) + s.title@ + "\n"@ + repeat_char(' ', indent)
        + repeat_char('-', encode_utf8(s.title@).len()) + "\n"@
        + indented_lines_text(s.content@, indent)
        + (if s.content@.len() > 0 { "\n"@ } else { Seq::<char>::empty() })
        + sections_text(s.subsections@, indent + 1)
}

/// Plain text of a list of sections, in order.
pub open spec fn sections_text(ss: Seq<ReportSection>, indent: nat) -> Seq<char>
    decreases ss,
{
    if ss.len() == 0 {
        Seq::empty()
    } else {
        sections_text(ss.drop_last(), indent) + section_text(ss.last(), indent)
    }
}

/// Nesting depth of a section: one more than its deepest subsection.
pub open spec fn section_depth(s: ReportSection) -> nat
    decreases s,
{
    1 + max_section_depth(s.subsections@)
}

/// Largest depth among some sections, 0 for none.
pub open spec fn max_section_depth(ss: Seq<ReportSection>) -> nat
    decreases ss,
{
    if ss.len() == 0 {
        0
    } else {
        let a = max_section_depth(ss.drop_last());
        let b = section_depth(ss.last());
        if a >= b { a } else { b }
    }
}

/// Each section is at most as deep as the deepest.
proof fn lemma_max_depth(ss: Seq<ReportSection>, j: int)
    requires
        0 <= j < ss.len(),
    ensures
        section_depth(ss[j]) <= max_section_depth(ss),
    decreases ss.len(),
{
    if j < ss.len() - 1 {
        lemma_max_depth(ss.drop_last(), j);
        assert(ss.drop_last()[j] == ss[j]);
    }
}

/// Appends `n` copies of `c`.
fn push_repeat(out: &mut String, c: char, n: usize)
    ensures
        final(out)@ == old(out)@ + repeat_char(c, n as nat),
{
    let mut k: usize = 0;
    while k < n
        invariant
            k <= n,
            out@ == old(out)@ + repeat_char(c, k as nat),
        decreases n - k,
    {
        push_char(out, c);
        k = k + 1;
        assert(out@ =~= old(out)@ + repeat_char(c, k as nat));
    }
}

impl ReportSection {
    /// Nesting depth of the section.
    pub open spec fn depth(&self) -> nat {
        section_depth(*self)
    }

    /// A subsection is less deep than its section.
    proof fn lemma_depth_child(&self, j: int)
        requires
            0 <= j < self.subsections@.len(),
        ensures
            self.subsections@[j].depth() + 1 <= self.depth(),
    {
        lemma_max_depth(self.subsections@, j);
    }

    /// A section with a title and nothing in it.
    pub fn new(title: String) -> (r: Self)
        ensures
            r.title == title,
            r.content@.len() == 0,
            r.subsections@.len() == 0,
    {
        ReportSection { title, content: Vec::new(), subsections: Vec::new() }
    }

    /// Appends a line of content.
    pub fn add_line(&mut self, line: String)
        ensures
            final(self).title == old(self).title,
            final(self).content@ == old(self).content@.push(line),
            final(self).subsections@ == old(self).subsections@,
    {
        self.content.push(line);
    }

    /// Appends a subsection.
    pub fn add_subsection(&mut self, subsection: ReportSection)
        ensures
            final(self).title == old(self).title,
            final(self).content@ == old(self).content@,
            final(self).subsections@ == old(self).subsections@.push(subsection),
    {
        self.subsections.push(subsection);
    }

    /// Markdown of the section at heading level `level`.
    pub fn to_markdown(&self, level: usize) -> (r: String)
        requires
            level + self.depth() <= usize::MAX,
        ensures
            r@ == section_markdown(*self, level as nat),
        decreases self,
    {
        let mut md: String = String::new();
        push_repeat(&mut md, '#', level);
        md.append(" ");
        md.append(self.title.as_str());
        md.append("\n\n");
        let ghost head = md@;
        let mut i: usize = 0;
        while i < self.content.len()
            invariant
                i <= self.content@.len(),
                md@ == head + lines_text(self.content@.subrange(0, i as int)),
            decreases self.content@.len() - i,
        {
            assert(self.content@.subrange(0, i + 1).drop_last() =~= self.content@.subrange(0, i as int));
            md.append(self.content[i].as_str());
            md.append("\n");
            i = i + 1;
        }
        assert(self.content@.subrange(0, i as int) =~= self.content@);
        if self.content.len() > 0 {
            md.append("\n");
        }
        let ghost mid = md@;
        let mut j: usize = 0;
        while j < self.subsections.len()
            invariant
                j <= self.subsections@.len(),
                level + self.depth() <= usize::MAX,
                md@ == mid + sections_markdown(self.subsections@.subrange(0, j as int), (level + 1) as nat),
            decreases self.subsections@.len() - j,
        {
            assert(self.subsections@.subrange(0, j + 1).drop_last() =~= self.subsections@.subrange(0, j as int));
            proof { self.lemma_depth_child(j as int); }
            let sub: String = self.subsections[j].to_markdown(level + 1);
            md.append(sub.as_str());
            j = j + 1;
        }
        assert(self.subsections@.subrange(0, j as int) =~= self.subsections@);
        md
    }

    /// Plain text of the section indented by `indent` spaces.
    pub fn to_text(&self, indent: usize) -> (r: String)
        requires
            indent + self.depth() <= usize::MAX,
        ensures
            r@ == section_text(*self, indent as nat),
        decreases self,
    {
        let mut text: String = String::new();
        push_repeat(&mut text, ' ', indent);
        text.append(self.title.as_str());
        text.append("\n");
        push_repeat(&mut text, ' ', indent);
        push_repeat(&mut text, '-', self.title.as_str().as_bytes().len());
        text.append("\n");
        let ghost head = text@;
        let mut i: usize = 0;
        while i < self.content.len()
            invariant
                i <= self.content@.len(),
                text@ == head + indented_lines_text(self.content@.subrange(0, i as int), indent as nat),
            decreases self.content@.len() - i,
        {
            assert(self.content@.subrange(0, i + 1).drop_last() =~= self.content@.subrange(0, i as int));
            push_repeat(&mut text, ' ', indent);
            text.append(" ");
            text.append(self.content[i].as_str());
            text.append("\n");
            i = i + 1;
        }
        assert(self.content@.subrange(0, i as int) =~= self.content@);
        if self.content.len() > 0 {
            text.append("\n");
        }
        let ghost mid = text@;
        let mut j: usize = 0;
        while j < self.subsections.len()
            invariant
                j <= self.subsections@.len(),
                indent + self.depth() <= usize::MAX,
                text@ == mid + sections_text(self.subsections@.subrange(0, j as int), (indent + 1) as nat),
            decreases self.subsections@.len() - j,
        {
            assert(self.subsections@.subrange(0, j + 1).drop_last() =~= self.subsections@.subrange(0, j as int));
            proof { self.lemma_depth_child(j as int); }
            let sub: String = self.subsections[j].to_text(indent + 1);
            text.append(sub.as_str());
            j = j + 1;
        }
        assert(self.subsections@.subrange(0, j as int) =~= self.subsections@);
        text
    }
}

} // verus!
