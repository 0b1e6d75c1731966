use vstd::prelude::*;

verus! {

/// A source position: file, line and column.
pub struct Location {
    pub file: String,
    pub line: u32,
    pub column: u32,
}

impl View for Location {
    type V = (Seq<char>, u32, u32);

    open spec fn view(&self) -> (Seq<char>, u32, u32) {
        (self.file@, self.line, self.column)
    }
}

/// The character of a decimal digit.
pub open spec fn digit_char(d: nat) -> char {
    if d == 0 { '0' }
    else if d == 1 { '1' }
    else if d == 2 { '2' }
    else if d == 3 { '3' }
    else if d == 4 { '4' }
    else if d == 5 { '5' }
    else if d == 6 { '6' }
    else if d == 7 { '7' }
    else if d == 8 { '8' }
    else { '9' }
}

/// The decimal digits of `n`, most significant first, without leading zeros.
pub open spec fn decimal(n: nat) -> Seq<char>
    decreases n,
{
    if n < 10 {
        seq![digit_char(n)]
    } else {
        decimal(n / 10) + seq![digit_char(n % 10)]
    }
}

/// How a location reads in a report: `file:line:column`.
pub open spec fn location_text(loc: (Seq<char>, u32, u32)) -> Seq<char> {
    loc.0 + seq![':'] + decimal(loc.1 as nat) + seq![':'] + decimal(loc.2 as nat)
}

fn digit_str(d: u32) -> (r: &'static str)
    requires
        d < 10,
    ensures
        r@ == seq![digit_char(d as nat)],
{
    proof {
        reveal_strlit("0");
        reveal_strlit("1");
        reveal_strlit("2");
        reveal_strlit("3");
        reveal_strlit("4");
        reveal_strlit("5");
        reveal_strlit("6");
        reveal_strlit("7");
        reveal_strlit("8");
        reveal_strlit("9");
    }
    if d == 0 { "0" }
    else if d == 1 { "1" }
    else if d == 2 { "2" }
    else if d == 3 { "3" }
    else if d == 4 { "4" }
    else if d == 5 { "5" }
    else if d == 6 { "6" }
    else if d == 7 { "7" }
    else if d == 8 { "8" }
    else { "9" }
}

/// Appends the decimal digits of `n` to `out`.
pub fn push_decimal(n: u32, out: &mut String)
    ensures
        final(out)@ == old(out)@ + decimal(n as nat),
    decreases n,
{
    if n >= 10 {
        push_decimal(n / 10, out);
    }
    out.append(digit_str(n % 10));
}

impl Location {
    /// A location at `line` and `column` of `file`.
    pub fn new(file: &str, line: u32, column: u32) -> (r: Location)
        ensures
            r@ == (file@, line, column),
    {
        Location { file: file.to_string(), line, column }
    }

    /// Appends `file:line:column` to `out`.
    pub fn write_to(&self, out: &mut String)
        ensures
            final(out)@ == old(out)@ + location_text(self@),
    {
        proof {
            reveal_strlit(":");
        }
        out.append(self.file.as_str());
        out.append(":");
        push_decimal(self.line, out);
        out.append(":");
        push_decimal(self.column, out);
    }

    /// The location as `file:line:column`.
    pub fn to_text(&self) -> (r: String)
        ensures
            r@ == location_text(self@),
    {
        let mut out = String::new();
        self.write_to(&mut out);
        out
    }
}

impl Clone for Location {
    fn clone(&self) -> (r: Location)
        ensures
            r@ == self@,
    {
        Location { file: self.file.clone(), line: self.line, column: self.column }
    }
}

} // verus!
