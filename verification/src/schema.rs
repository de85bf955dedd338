use vstd::prelude::*;
use vstd::utf8::encode_utf8;

verus! {

/// `needle` stands in `hay` at the position `at`.
pub open spec fn occurs_at(hay: Seq<u8>, needle: Seq<u8>, at: int) -> bool {
    0 <= at && at + needle.len() <= hay.len() && hay.subrange(at, at + needle.len()) == needle
}

/// `needle` stands somewhere in `hay`.
pub open spec fn occurs(hay: Seq<u8>, needle: Seq<u8>) -> bool {
    exists|at: int| occurs_at(hay, needle, at)
}

/// The line opens a section that only a store with Python can install.
pub open spec fn opens_section(line: Seq<char>) -> bool {
    occurs(encode_utf8(line), encode_utf8("<PYTHON ONLY>"@))
}

/// The line closes such a section.
pub open spec fn closes_section(line: Seq<char>) -> bool {
    occurs(encode_utf8(line), encode_utf8("</PYTHON ONLY>"@))
}

/// Whether a section is open behind the lines.
pub open spec fn inside_section(lines: Seq<String>) -> bool
    decreases lines.len(),
{
    if lines.len() == 0 {
        false
    } else if opens_section(lines.last()@) {
        true
    } else if closes_section(lines.last()@) {
        false
    } else {
        inside_section(lines.drop_last())
    }
}

/// The lines outside every section, each with a line feed behind it. The
/// lines that open and close a section are dropped with it.
pub open spec fn outside_sections(lines: Seq<String>) -> Seq<char>
    decreases lines.len(),
{
    if lines.len() == 0 {
        Seq::empty()
    } else {
        let before = outside_sections(lines.drop_last());
        let line = lines.last()@;
        if opens_section(line) || closes_section(line) || inside_section(lines.drop_last()) {
            before
        } else {
            before + line + "\n"@
        }
    }
}

fn matches_at(hay: &[u8], needle: &[u8], at: usize) -> (same: bool)
    requires
        at + needle@.len() <= hay@.len(),
    ensures
        same == occurs_at(hay@, needle@, at as int),
{
    let size = hay.len();
    let mut j: usize = 0;
    while j < needle.len()
        invariant
            j <= needle@.len(),
            size == hay@.len(),
            at + needle@.len() <= hay@.len(),
            forall|k: int| 0 <= k < j ==> hay@[at + k] == needle@[k],
        decreases needle@.len() - j,
    {
        if hay[at + j] != needle[j] {
            assert(hay@.subrange(at as int, at + needle@.len())[j as int] != needle@[j as int]);
            return false;
        }
        j = j + 1;
    }
    assert(hay@.subrange(at as int, at + needle@.len()) =~= needle@);
    true
}

/// Whether `needle` stands somewhere in `hay`.
pub fn contains_bytes(hay: &[u8], needle: &[u8]) -> (found: bool)
    ensures
        found == occurs(hay@, needle@),
{
    if needle.len() > hay.len() {
        return false;
    }
    let last = hay.len() - needle.len();
    let mut at: usize = 0;
    loop
        invariant
            last == hay@.len() - needle@.len(),
            at <= last,
            forall|a: int| 0 <= a < at ==> !occurs_at(hay@, needle@, a),
        decreases last - at,
    {
        if matches_at(hay, needle, at) {
            return true;
        }
        if at == last {
            return false;
        }
        at = at + 1;
    }
}

/// Drops the sections that only a store with Python can install from the
/// lines of a schema, and joins what is left.
pub fn without_python_sections(lines: &Vec<String>) -> (text: String)
    ensures
        text@ == outside_sections(lines@),
{
    let mut text = String::new();
    let mut inside = false;
    let mut i: usize = 0;
    while i < lines.len()
        invariant
            i <= lines@.len(),
            inside == inside_section(lines@.take(i as int)),
            text@ == outside_sections(lines@.take(i as int)),
        decreases lines@.len() - i,
    {
        assert(lines@.take(i + 1).drop_last() =~= lines@.take(i as int));
        let line = lines[i].as_str();
        if contains_bytes(line.as_bytes(), "<PYTHON ONLY>".as_bytes()) {
            inside = true;
        } else if contains_bytes(line.as_bytes(), "</PYTHON ONLY>".as_bytes()) {
            inside = false;
        } else if !inside {
            text.append(line);
            text.append("\n");
        }
        i = i + 1;
    }
    assert(lines@.take(i as int) =~= lines@);
    text
}

} // verus!
