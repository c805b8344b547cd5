//! Post-processors: neutral toolpath to controller text.
//!
//! One writer, many dialects. A dialect sets the program header and
//! footer, how a tool change reads, and whether the control has canned
//! drilling cycles (G81 and G83); without them, drilling is written out as
//! plain moves. This module holds the dialects and every line of the
//! program that does not depend on a coordinate; the coordinates are
//! written by the caller, with `trim_number` for each number.

use vstd::prelude::*;
use crate::text::{chars_of, owned, push_char, push_decimal, decimal};

verus! {

/// One controller family.
#[derive(Clone, Debug)]
pub struct Dialect {
    pub name: &'static str,
    /// Wrap the program in `%` lines.
    pub percent: bool,
    /// Start with a program number line, `O0001 (name)`.
    pub program_number: bool,
    /// Tool length offset (G43 H) after a tool change.
    pub length_offset: bool,
    /// The control changes tools with M6; without it the program stops
    /// (M0) for a manual change.
    pub m6: bool,
    pub canned_cycles: bool,
    pub footer: Vec<&'static str>,
    pub program_name: String,
}

impl Dialect {
    pub fn linuxcnc() -> (d: Dialect)
        ensures
            d.name@ == "LinuxCNC"@,
            d.percent && !d.program_number && d.length_offset && d.m6 && d.canned_cycles,
            d.footer@.len() == 1 && d.footer@[0]@ == "M2"@,
            d.program_name@ == Seq::<char>::empty(),
    {
        Dialect {
            name: "LinuxCNC",
            percent: true,
            program_number: false,
            length_offset: true,
            m6: true,
            canned_cycles: true,
            footer: vec!["M2"],
            program_name: String::new(),
        }
    }

    pub fn grbl() -> (d: Dialect)
        ensures
            d.name@ == "GRBL"@,
            !d.percent && !d.program_number && !d.length_offset && !d.m6 && !d.canned_cycles,
            d.footer@.len() == 1 && d.footer@[0]@ == "M2"@,
            d.program_name@ == Seq::<char>::empty(),
    {
        Dialect {
            name: "GRBL",
            percent: false,
            program_number: false,
            length_offset: false,
            m6: false,
            canned_cycles: false,
            footer: vec!["M2"],
            program_name: String::new(),
        }
    }

    pub fn fanuc() -> (d: Dialect)
        ensures
            d.name@ == "Fanuc"@,
            d.percent && d.program_number && d.length_offset && d.m6 && d.canned_cycles,
            d.footer@.len() == 3 && d.footer@[0]@ == "G28 G91 Z0"@ && d.footer@[1]@ == "G90"@
                && d.footer@[2]@ == "M30"@,
            d.program_name@ == Seq::<char>::empty(),
    {
        Dialect {
            name: "Fanuc",
            percent: true,
            program_number: true,
            length_offset: true,
            m6: true,
            canned_cycles: true,
            footer: vec!["G28 G91 Z0", "G90", "M30"],
            program_name: String::new(),
        }
    }

    pub fn haas() -> (d: Dialect)
        ensures
            d.name@ == "Haas"@,
            d.percent && d.program_number && d.length_offset && d.m6 && d.canned_cycles,
            d.footer@.len() == 2 && d.footer@[0]@ == "G53 G00 Z0"@ && d.footer@[1]@ == "M30"@,
            d.program_name@ == Seq::<char>::empty(),
    {
        Dialect {
            name: "Haas",
            percent: true,
            program_number: true,
            length_offset: true,
            m6: true,
            canned_cycles: true,
            footer: vec!["G53 G00 Z0", "M30"],
            program_name: String::new(),
        }
    }

    pub fn name(&self) -> (r: &str)
        ensures
            r@ == self.name@,
    {
        self.name
    }

    /// The program title: its name, or "Anvil CAM" when it has none.
    pub fn title(&self) -> (r: String)
        ensures
            r@ == title_of(self.program_name@),
    {
        if self.program_name.as_str().is_empty() {
            owned("Anvil CAM")
        } else {
            self.program_name.clone()
        }
    }

    /// The lines before the first move.
    pub fn header(&self) -> (r: String)
        ensures
            r@ == header_text(self.percent, self.program_number, self.program_name@),
    {
        let mut out = String::new();
        if self.percent {
            out.append("%\n");
        }
        let t = paren_free(&self.title());
        if self.program_number {
            out.append("O0001 (");
        } else {
            out.append("(");
        }
        out.append(t.as_str());
        out.append(")\n");
        out.append("G21 G90 G17 G94\n");
        out
    }

    /// The lines after the last move; `in_cycle` when a canned cycle is
    /// still active and must be cancelled first.
    pub fn footer_lines(&self, in_cycle: bool) -> (r: String)
        ensures
            r@ == footer_text(in_cycle, footer_views(self.footer@), self.percent),
    {
        let mut out = String::new();
        if in_cycle {
            out.append("G80\n");
        }
        let mut k: usize = 0;
        let ghost lines = footer_views(self.footer@);
        let ghost head = if in_cycle { "G80\n"@ } else { Seq::<char>::empty() };
        assert(lines.take(0) =~= Seq::<Seq<char>>::empty());
        assert(out@ =~= head + joined_lines(lines.take(0)));
        while k < self.footer.len()
            invariant
                k <= self.footer@.len(),
                lines == footer_views(self.footer@),
                out@ == head + joined_lines(lines.take(k as int)),
            decreases self.footer@.len() - k,
        {
            out.append(self.footer[k]);
            out.append("\n");
            assert(lines.take(k + 1).drop_last() =~= lines.take(k as int));
            assert(out@ =~= head + joined_lines(lines.take(k + 1)));
            k = k + 1;
        }
        assert(lines.take(lines.len() as int) =~= lines);
        if self.percent {
            out.append("%\n");
        }
        out
    }

    /// The lines of a change to tool `number`. Without M6 the program
    /// stops and says which tool to put in; `name` and `diameter` are
    /// written there as given.
    pub fn tool_change(&self, number: u32, name: &str, diameter: &str) -> (r: String)
        ensures
            r@ == tool_change_text(self.m6, self.length_offset, number as nat, name@, diameter@),
    {
        let mut out = String::new();
        if self.m6 {
            out.append("T");
            push_decimal(&mut out, number as u64);
            out.append(" M6\n");
        } else {
            out.append("(Change to tool ");
            push_decimal(&mut out, number as u64);
            out.append(": ");
            out.append(name);
            out.append(", ");
            out.append(diameter);
            out.append(" mm, then resume)\n");
            out.append("M0\n");
        }
        if self.length_offset {
            out.append("G43 H");
            push_decimal(&mut out, number as u64);
            out.append("\n");
        }
        out
    }
}

/// Every dialect's footer as text.
pub open spec fn footer_views(f: Seq<&'static str>) -> Seq<Seq<char>> {
    f.map_values(|l: &'static str| l@)
}

/// Lines, each ended by a line break.
pub open spec fn joined_lines(lines: Seq<Seq<char>>) -> Seq<char>
    decreases lines.len(),
{
    if lines.len() == 0 {
        Seq::empty()
    } else {
        joined_lines(lines.drop_last()) + lines.last() + "\n"@
    }
}

pub open spec fn title_of(program_name: Seq<char>) -> Seq<char> {
    if program_name.len() == 0 {
        "Anvil CAM"@
    } else {
        program_name
    }
}

/// `s` with its brackets made spaces, so that it can stand in a comment.
pub open spec fn without_parens(s: Seq<char>) -> Seq<char> {
    s.map_values(|c: char| if c == '(' || c == ')' { ' ' } else { c })
}

pub open spec fn header_text(percent: bool, program_number: bool, program_name: Seq<char>) -> Seq<char> {
    let t = without_parens(title_of(program_name));
    (if percent { "%\n"@ } else { Seq::empty() }) + (if program_number {
        "O0001 ("@
    } else {
        "("@
    }) + t + ")\n"@ + "G21 G90 G17 G94\n"@
}

pub open spec fn footer_text(in_cycle: bool, lines: Seq<Seq<char>>, percent: bool) -> Seq<char> {
    (if in_cycle { "G80\n"@ } else { Seq::empty() }) + joined_lines(lines) + (if percent {
        "%\n"@
    } else {
        Seq::empty()
    })
}

pub open spec fn tool_change_text(
    m6: bool,
    length_offset: bool,
    number: nat,
    name: Seq<char>,
    diameter: Seq<char>,
) -> Seq<char> {
    (if m6 {
        "T"@ + decimal(number) + " M6\n"@
    } else {
        "(Change to tool "@ + decimal(number) + ": "@ + name + ", "@ + diameter + " mm, then resume)\n"@
            + "M0\n"@
    }) + (if length_offset {
        "G43 H"@ + decimal(number) + "\n"@
    } else {
        Seq::empty()
    })
}

/// `s` with `(` and `)` made spaces.
pub fn paren_free(s: &String) -> (r: String)
    ensures
        r@ == without_parens(s@),
{
    let v = chars_of(s.as_str());
    let mut r = String::new();
    let mut k: usize = 0;
    while k < v.len()
        invariant
            k <= v@.len(),
            v@ == s@,
            r@ == without_parens(v@.take(k as int)),
        decreases v@.len() - k,
    {
        let c = v[k];
        push_char(&mut r, if c == '(' || c == ')' { ' ' } else { c });
        assert(r@ =~= without_parens(v@.take(k + 1)));
        k = k + 1;
    }
    assert(v@.take(v@.len() as int) =~= v@);
    r
}

/// A comment line, with the brackets of the text made spaces.
pub fn comment(c: &String) -> (r: String)
    ensures
        r@ == "("@ + without_parens(c@) + ")\n"@,
{
    let mut r = owned("(");
    let t = paren_free(c);
    r.append(t.as_str());
    r.append(")\n");
    r
}

/// Whether a canned cycle must be cancelled (G80) before a move: one is
/// active and the move is not another hole.
pub fn ends_cycle(in_cycle: bool, is_drill: bool) -> (r: bool)
    ensures
        r == (in_cycle && !is_drill),
{
    in_cycle && !is_drill
}

/// A number written with three decimals, shortened: trailing zeros and
/// then a trailing point are dropped, and "-0" reads "0".
pub open spec fn trimmed_number(s: Seq<char>) -> Seq<char> {
    let a = crate::text::trim_end(s, '0');
    let b = crate::text::trim_end(a, '.');
    if b == seq!['-', '0'] {
        seq!['0']
    } else {
        b
    }
}

/// Shortens a number written with three decimals, as `trimmed_number`.
pub fn trim_number(s: &str) -> (r: String)
    ensures
        r@ == trimmed_number(s@),
{
    let v = chars_of(s);
    let a = crate::text::count_trailing(&v, v.len(), '0');
    let b = crate::text::count_trailing(&v, a, '.');
    proof {
        assert(v@.take(v@.len() as int) =~= v@);
    }
    if b == 2 && v[0] == '-' && v[1] == '0' {
        assert(v@.take(2) =~= seq!['-', '0']);
        proof {
            reveal_strlit("0");
        }
        owned("0")
    } else {
        proof {
            if v@.take(b as int) == seq!['-', '0'] {
                assert(v@.take(b as int)[0] == '-');
            }
        }
        assert(v@.subrange(0, b as int) =~= v@.take(b as int));
        crate::text::string_of(v.as_slice(), 0, b)
    }
}

/// Plain RS-274 G-code. Accepted by LinuxCNC, GRBL, and most Fanuc-style
/// controls for the subset of moves written here; drilling is written out
/// as moves, so it runs everywhere.
#[derive(Clone, Debug)]
pub struct GenericGcode {
    pub program_name: String,
}

impl GenericGcode {
    pub fn new() -> (g: GenericGcode)
        ensures
            g.program_name@ == Seq::<char>::empty(),
    {
        GenericGcode { program_name: String::new() }
    }

    pub fn name(&self) -> (r: &str)
        ensures
            r@ == "Generic G-code"@,
    {
        "Generic G-code"
    }

    /// The dialect this post writes with.
    pub fn dialect(&self) -> (d: Dialect)
        ensures
            d.name@ == "Generic G-code"@,
            d.percent && !d.program_number && !d.length_offset && d.m6 && !d.canned_cycles,
            d.footer@.len() == 1 && d.footer@[0]@ == "M30"@,
            d.program_name@ == self.program_name@,
    {
        Dialect {
            name: "Generic G-code",
            percent: true,
            program_number: false,
            length_offset: false,
            m6: true,
            canned_cycles: false,
            footer: vec!["M30"],
            program_name: self.program_name.clone(),
        }
    }
}

} // verus!
