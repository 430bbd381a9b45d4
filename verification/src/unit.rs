//! CSS quantities: numbers with their units, and the values a declaration can hold.
use vstd::prelude::*;
use vstd::string::StringExecFns;
use crate::text::str_eq;
use crate::style::prop_validation::TokenExpected;

verus! {

/// A CSS number, kept as written in the source (`48`, `1.5`, `.5`, `-2e3`).
#[derive(Debug)]
pub struct CssNumber {
    pub text: String,
}

impl CssNumber {
    /// The number written as `text`.
    pub fn new(text: &str) -> (r: CssNumber)
        ensures
            r.text@ == text@,
    {
        CssNumber { text: text.to_owned() }
    }
}

impl Clone for CssNumber {
    fn clone(&self) -> (r: Self)
        ensures
            r == *self,
    {
        CssNumber { text: self.text.clone() }
    }
}

/// A distance.
#[derive(Debug)]
pub enum Length {
    Cm(CssNumber),
    Mm(CssNumber),
    Q(CssNumber),
    In(CssNumber),
    Pc(CssNumber),
    Pt(CssNumber),
    Px(CssNumber),
    Cap(CssNumber),
    Ch(CssNumber),
    Em(CssNumber),
    Ex(CssNumber),
    Ic(CssNumber),
    Lh(CssNumber),
    RCap(CssNumber),
    RCh(CssNumber),
    REm(CssNumber),
    REx(CssNumber),
    RIc(CssNumber),
    RLh(CssNumber),
    Vh(CssNumber),
    Vw(CssNumber),
    VMax(CssNumber),
    VMin(CssNumber),
    Vb(CssNumber),
    Vi(CssNumber),
    Cqw(CssNumber),
    Cqh(CssNumber),
    Cqi(CssNumber),
    Cqb(CssNumber),
    CqMin(CssNumber),
    CqMax(CssNumber),
}

/// An angle.
#[derive(Debug)]
pub enum Angle {
    Deg(CssNumber),
    Grad(CssNumber),
    Rad(CssNumber),
    Turn(CssNumber),
}

/// A duration.
#[derive(Debug)]
pub enum Time {
    Sec(CssNumber),
    Milli(CssNumber),
}

/// A resolution.
#[derive(Debug)]
pub enum Resolution {
    Dpi(CssNumber),
    Dpcm(CssNumber),
    Dppx(CssNumber),
}

impl Length {
    /// The number the quantity carries.
    pub open spec fn spec_value(self) -> CssNumber {
        match self {
            Length::Cm(num) => num,
            Length::Mm(num) => num,
            Length::Q(num) => num,
            Length::In(num) => num,
            Length::Pc(num) => num,
            Length::Pt(num) => num,
            Length::Px(num) => num,
            Length::Cap(num) => num,
            Length::Ch(num) => num,
            Length::Em(num) => num,
            Length::Ex(num) => num,
            Length::Ic(num) => num,
            Length::Lh(num) => num,
            Length::RCap(num) => num,
            Length::RCh(num) => num,
            Length::REm(num) => num,
            Length::REx(num) => num,
            Length::RIc(num) => num,
            Length::RLh(num) => num,
            Length::Vh(num) => num,
            Length::Vw(num) => num,
            Length::VMax(num) => num,
            Length::VMin(num) => num,
            Length::Vb(num) => num,
            Length::Vi(num) => num,
            Length::Cqw(num) => num,
            Length::Cqh(num) => num,
            Length::Cqi(num) => num,
            Length::Cqb(num) => num,
            Length::CqMin(num) => num,
            Length::CqMax(num) => num,
        }
    }

    /// The number the quantity carries.
    pub fn get(&self) -> (r: &CssNumber)
        ensures
            *r == self.spec_value(),
    {
        match self {
            Length::Cm(num) => num,
            Length::Mm(num) => num,
            Length::Q(num) => num,
            Length::In(num) => num,
            Length::Pc(num) => num,
            Length::Pt(num) => num,
            Length::Px(num) => num,
            Length::Cap(num) => num,
            Length::Ch(num) => num,
            Length::Em(num) => num,
            Length::Ex(num) => num,
            Length::Ic(num) => num,
            Length::Lh(num) => num,
            Length::RCap(num) => num,
            Length::RCh(num) => num,
            Length::REm(num) => num,
            Length::REx(num) => num,
            Length::RIc(num) => num,
            Length::RLh(num) => num,
            Length::Vh(num) => num,
            Length::Vw(num) => num,
            Length::VMax(num) => num,
            Length::VMin(num) => num,
            Length::Vb(num) => num,
            Length::Vi(num) => num,
            Length::Cqw(num) => num,
            Length::Cqh(num) => num,
            Length::Cqi(num) => num,
            Length::Cqb(num) => num,
            Length::CqMin(num) => num,
            Length::CqMax(num) => num,
        }
    }

    /// The unit written after the number when the quantity is printed.
    pub open spec fn spec_suffix(self) -> Seq<char> {
        match self {
            Length::Cm(_) => "cm"@,
            Length::Mm(_) => "mm"@,
            Length::Q(_) => "Q"@,
            Length::In(_) => "in"@,
            Length::Pc(_) => "pc"@,
            Length::Pt(_) => "pt"@,
            Length::Px(_) => "px"@,
            Length::Cap(_) => "cap"@,
            Length::Ch(_) => "ch"@,
            Length::Em(_) => "em"@,
            Length::Ex(_) => "ex"@,
            Length::Ic(_) => "ic"@,
            Length::Lh(_) => "lh"@,
            Length::RCap(_) => "rcap"@,
            Length::RCh(_) => "rch"@,
            Length::REm(_) => "rem"@,
            Length::REx(_) => "rex"@,
            Length::RIc(_) => "ric"@,
            Length::RLh(_) => "rlh"@,
            Length::Vh(_) => "vh"@,
            Length::Vw(_) => "vw"@,
            Length::VMax(_) => "vmax"@,
            Length::VMin(_) => "vmin"@,
            Length::Vb(_) => "vb"@,
            Length::Vi(_) => "vi"@,
            Length::Cqw(_) => "cqw"@,
            Length::Cqh(_) => "cqh"@,
            Length::Cqi(_) => "cqi"@,
            Length::Cqb(_) => "cqb"@,
            Length::CqMin(_) => "cqmin"@,
            Length::CqMax(_) => "cqmax"@,
        }
    }

    /// The unit written after the number when the quantity is printed.
    pub fn suffix(&self) -> (r: &'static str)
        ensures
            r@ == self.spec_suffix(),
    {
        match self {
            Length::Cm(_) => "cm",
            Length::Mm(_) => "mm",
            Length::Q(_) => "Q",
            Length::In(_) => "in",
            Length::Pc(_) => "pc",
            Length::Pt(_) => "pt",
            Length::Px(_) => "px",
            Length::Cap(_) => "cap",
            Length::Ch(_) => "ch",
            Length::Em(_) => "em",
            Length::Ex(_) => "ex",
            Length::Ic(_) => "ic",
            Length::Lh(_) => "lh",
            Length::RCap(_) => "rcap",
            Length::RCh(_) => "rch",
            Length::REm(_) => "rem",
            Length::REx(_) => "rex",
            Length::RIc(_) => "ric",
            Length::RLh(_) => "rlh",
            Length::Vh(_) => "vh",
            Length::Vw(_) => "vw",
            Length::VMax(_) => "vmax",
            Length::VMin(_) => "vmin",
            Length::Vb(_) => "vb",
            Length::Vi(_) => "vi",
            Length::Cqw(_) => "cqw",
            Length::Cqh(_) => "cqh",
            Length::Cqi(_) => "cqi",
            Length::Cqb(_) => "cqb",
            Length::CqMin(_) => "cqmin",
            Length::CqMax(_) => "cqmax",
        }
    }

    /// The quantity printed as CSS: the number followed by its unit.
    pub fn to_css_string(&self) -> (r: String)
        ensures
            r@ == self.spec_value().text@ + self.spec_suffix(),
    {
        let mut r = self.get().text.clone();
        r.append(self.suffix());
        r
    }

    /// The quantity of `num` in the unit spelled `unit`, if the spelling names one.
    pub open spec fn spec_from_pair(num: CssNumber, unit: Seq<char>) -> Option<Self> {
        if unit == "cm"@ {
            Some(Length::Cm(num))
        } else if unit == "mm"@ {
            Some(Length::Mm(num))
        } else if unit == "Q"@ {
            Some(Length::Q(num))
        } else if unit == "in"@ {
            Some(Length::In(num))
        } else if unit == "pc"@ {
            Some(Length::Pc(num))
        } else if unit == "pt"@ {
            Some(Length::Pt(num))
        } else if unit == "px"@ {
            Some(Length::Px(num))
        } else if unit == "cap"@ {
            Some(Length::Cap(num))
        } else if unit == "ch"@ {
            Some(Length::Ch(num))
        } else if unit == "em"@ {
            Some(Length::Em(num))
        } else if unit == "ex"@ {
            Some(Length::Ex(num))
        } else if unit == "ic"@ {
            Some(Length::Ic(num))
        } else if unit == "lh"@ {
            Some(Length::Lh(num))
        } else if unit == "rcap"@ {
            Some(Length::RCap(num))
        } else if unit == "rch"@ {
            Some(Length::RCh(num))
        } else if unit == "rem"@ {
            Some(Length::REm(num))
        } else if unit == "rex"@ {
            Some(Length::REx(num))
        } else if unit == "ric"@ {
            Some(Length::RIc(num))
        } else if unit == "rlh"@ {
            Some(Length::RLh(num))
        } else if unit == "vh"@ {
            Some(Length::Vh(num))
        } else if unit == "vw"@ {
            Some(Length::Vw(num))
        } else if unit == "vMax"@ {
            Some(Length::VMax(num))
        } else if unit == "vMin"@ {
            Some(Length::VMin(num))
        } else if unit == "vb"@ {
            Some(Length::Vb(num))
        } else if unit == "vi"@ {
            Some(Length::Vi(num))
        } else if unit == "cqw"@ {
            Some(Length::Cqw(num))
        } else if unit == "cqh"@ {
            Some(Length::Cqh(num))
        } else if unit == "cqi"@ {
            Some(Length::Cqi(num))
        } else if unit == "cqb"@ {
            Some(Length::Cqb(num))
        } else if unit == "cqmin"@ {
            Some(Length::CqMin(num))
        } else if unit == "cqmax"@ {
            Some(Length::CqMax(num))
        } else {
            None
        }
    }

    /// The quantity of `num` in the unit spelled `unit`, if the spelling names one.
    pub fn from_pair(num: CssNumber, unit: &str) -> (r: Option<Self>)
        ensures
            r == Self::spec_from_pair(num, unit@),
    {
        if str_eq(unit, "cm") {
            return Some(Length::Cm(num));
        }
        if str_eq(unit, "mm") {
            return Some(Length::Mm(num));
        }
        if str_eq(unit, "Q") {
            return Some(Length::Q(num));
        }
        if str_eq(unit, "in") {
            return Some(Length::In(num));
        }
        if str_eq(unit, "pc") {
            return Some(Length::Pc(num));
        }
        if str_eq(unit, "pt") {
            return Some(Length::Pt(num));
        }
        if str_eq(unit, "px") {
            return Some(Length::Px(num));
        }
        if str_eq(unit, "cap") {
            return Some(Length::Cap(num));
        }
        if str_eq(unit, "ch") {
            return Some(Length::Ch(num));
        }
        if str_eq(unit, "em") {
            return Some(Length::Em(num));
        }
        if str_eq(unit, "ex") {
            return Some(Length::Ex(num));
        }
        if str_eq(unit, "ic") {
            return Some(Length::Ic(num));
        }
        if str_eq(unit, "lh") {
            return Some(Length::Lh(num));
        }
        if str_eq(unit, "rcap") {
            return Some(Length::RCap(num));
        }
        if str_eq(unit, "rch") {
            return Some(Length::RCh(num));
        }
        if str_eq(unit, "rem") {
            return Some(Length::REm(num));
        }
        if str_eq(unit, "rex") {
            return Some(Length::REx(num));
        }
        if str_eq(unit, "ric") {
            return Some(Length::RIc(num));
        }
        if str_eq(unit, "rlh") {
            return Some(Length::RLh(num));
        }
        if str_eq(unit, "vh") {
            return Some(Length::Vh(num));
        }
        if str_eq(unit, "vw") {
            return Some(Length::Vw(num));
        }
        if str_eq(unit, "vMax") {
            return Some(Length::VMax(num));
        }
        if str_eq(unit, "vMin") {
            return Some(Length::VMin(num));
        }
        if str_eq(unit, "vb") {
            return Some(Length::Vb(num));
        }
        if str_eq(unit, "vi") {
            return Some(Length::Vi(num));
        }
        if str_eq(unit, "cqw") {
            return Some(Length::Cqw(num));
        }
        if str_eq(unit, "cqh") {
            return Some(Length::Cqh(num));
        }
        if str_eq(unit, "cqi") {
            return Some(Length::Cqi(num));
        }
        if str_eq(unit, "cqb") {
            return Some(Length::Cqb(num));
        }
        if str_eq(unit, "cqmin") {
            return Some(Length::CqMin(num));
        }
        if str_eq(unit, "cqmax") {
            return Some(Length::CqMax(num));
        }
        None
    }

}

impl Angle {
    /// The number the quantity carries.
    pub open spec fn spec_value(self) -> CssNumber {
        match self {
            Angle::Deg(num) => num,
            Angle::Grad(num) => num,
            Angle::Rad(num) => num,
            Angle::Turn(num) => num,
        }
    }

    /// The number the quantity carries.
    pub fn get(&self) -> (r: &CssNumber)
        ensures
            *r == self.spec_value(),
    {
        match self {
            Angle::Deg(num) => num,
            Angle::Grad(num) => num,
            Angle::Rad(num) => num,
            Angle::Turn(num) => num,
        }
    }

    /// The unit written after the number when the quantity is printed.
    pub open spec fn spec_suffix(self) -> Seq<char> {
        match self {
            Angle::Deg(_) => "deg"@,
            Angle::Grad(_) => "grad"@,
            Angle::Rad(_) => "rad"@,
            Angle::Turn(_) => "turn"@,
        }
    }

    /// The unit written after the number when the quantity is printed.
    pub fn suffix(&self) -> (r: &'static str)
        ensures
            r@ == self.spec_suffix(),
    {
        match self {
            Angle::Deg(_) => "deg",
            Angle::Grad(_) => "grad",
            Angle::Rad(_) => "rad",
            Angle::Turn(_) => "turn",
        }
    }

    /// The quantity printed as CSS: the number followed by its unit.
    pub fn to_css_string(&self) -> (r: String)
        ensures
            r@ == self.spec_value().text@ + self.spec_suffix(),
    {
        let mut r = self.get().text.clone();
        r.append(self.suffix());
        r
    }

    /// The quantity of `num` in the unit spelled `unit`, if the spelling names one.
    pub open spec fn spec_from_pair(num: CssNumber, unit: Seq<char>) -> Option<Self> {
        if unit == "deg"@ {
            Some(Angle::Deg(num))
        } else if unit == "grad"@ {
            Some(Angle::Grad(num))
        } else if unit == "rad"@ {
            Some(Angle::Rad(num))
        } else if unit == "turn"@ {
            Some(Angle::Turn(num))
        } else {
            None
        }
    }

    /// The quantity of `num` in the unit spelled `unit`, if the spelling names one.
    pub fn from_pair(num: CssNumber, unit: &str) -> (r: Option<Self>)
        ensures
            r == Self::spec_from_pair(num, unit@),
    {
        if str_eq(unit, "deg") {
            return Some(Angle::Deg(num));
        }
        if str_eq(unit, "grad") {
            return Some(Angle::Grad(num));
        }
        if str_eq(unit, "rad") {
            return Some(Angle::Rad(num));
        }
        if str_eq(unit, "turn") {
            return Some(Angle::Turn(num));
        }
        None
    }

}

impl Time {
    /// The unit a time is printed with.
    pub open spec fn spec_suffix(self) -> Seq<char> {
        match self {
            Time::Sec(_) => "s"@,
            Time::Milli(_) => "ms"@,
        }
    }

    /// The quantity printed as CSS: the number followed by `s` or `ms`.
    pub fn to_css_string(&self) -> (r: String)
        ensures
            r@ == self.spec_value().text@ + self.spec_suffix(),
    {
        let mut r = self.get().text.clone();
        match self {
            Time::Sec(_) => r.append("s"),
            Time::Milli(_) => r.append("ms"),
        }
        r
    }

    /// The number the quantity carries.
    pub open spec fn spec_value(self) -> CssNumber {
        match self {
            Time::Sec(num) => num,
            Time::Milli(num) => num,
        }
    }

    /// The number the quantity carries.
    pub fn get(&self) -> (r: &CssNumber)
        ensures
            *r == self.spec_value(),
    {
        match self {
            Time::Sec(num) => num,
            Time::Milli(num) => num,
        }
    }

}

impl Resolution {
    /// The number the quantity carries.
    pub open spec fn spec_value(self) -> CssNumber {
        match self {
            Resolution::Dpi(num) => num,
            Resolution::Dpcm(num) => num,
            Resolution::Dppx(num) => num,
        }
    }

    /// The number the quantity carries.
    pub fn get(&self) -> (r: &CssNumber)
        ensures
            *r == self.spec_value(),
    {
        match self {
            Resolution::Dpi(num) => num,
            Resolution::Dpcm(num) => num,
            Resolution::Dppx(num) => num,
        }
    }

    /// The unit written after the number when the quantity is printed.
    pub open spec fn spec_suffix(self) -> Seq<char> {
        match self {
            Resolution::Dpi(_) => "dpi"@,
            Resolution::Dpcm(_) => "dpcm"@,
            Resolution::Dppx(_) => "x"@,
        }
    }

    /// The unit written after the number when the quantity is printed.
    pub fn suffix(&self) -> (r: &'static str)
        ensures
            r@ == self.spec_suffix(),
    {
        match self {
            Resolution::Dpi(_) => "dpi",
            Resolution::Dpcm(_) => "dpcm",
            Resolution::Dppx(_) => "x",
        }
    }

    /// The quantity printed as CSS: the number followed by its unit.
    pub fn to_css_string(&self) -> (r: String)
        ensures
            r@ == self.spec_value().text@ + self.spec_suffix(),
    {
        let mut r = self.get().text.clone();
        r.append(self.suffix());
        r
    }

    /// The quantity of `num` in the unit spelled `unit`, if the spelling names one.
    pub open spec fn spec_from_pair(num: CssNumber, unit: Seq<char>) -> Option<Self> {
        if unit == "dpi"@ {
            Some(Resolution::Dpi(num))
        } else if unit == "dpcm"@ {
            Some(Resolution::Dpcm(num))
        } else if unit == "dppx"@ {
            Some(Resolution::Dppx(num))
        } else if unit == "x"@ {
            Some(Resolution::Dppx(num))
        } else {
            None
        }
    }

    /// The quantity of `num` in the unit spelled `unit`, if the spelling names one.
    pub fn from_pair(num: CssNumber, unit: &str) -> (r: Option<Self>)
        ensures
            r == Self::spec_from_pair(num, unit@),
    {
        if str_eq(unit, "dpi") {
            return Some(Resolution::Dpi(num));
        }
        if str_eq(unit, "dpcm") {
            return Some(Resolution::Dpcm(num));
        }
        if str_eq(unit, "dppx") {
            return Some(Resolution::Dppx(num));
        }
        if str_eq(unit, "x") {
            return Some(Resolution::Dppx(num));
        }
        None
    }

}

/// Printing a length and reading its unit back gives the same length, except for `vmax` and `vmin`, which are read as `vMax` and `vMin`.
pub proof fn lemma_length_unit_round_trip(q: Length)
    requires
        !(q is VMax),
        !(q is VMin),
    ensures
        Length::spec_from_pair(q.spec_value(), q.spec_suffix()) == Some(q),
{
    reveal_strlit("Q");
    assert("Q"@ =~= seq!['Q']);
    reveal_strlit("cap");
    assert("cap"@ =~= seq!['c', 'a', 'p']);
    reveal_strlit("ch");
    assert("ch"@ =~= seq!['c', 'h']);
    reveal_strlit("cm");
    assert("cm"@ =~= seq!['c', 'm']);
    reveal_strlit("cqb");
    assert("cqb"@ =~= seq!['c', 'q', 'b']);
    reveal_strlit("cqh");
    assert("cqh"@ =~= seq!['c', 'q', 'h']);
    reveal_strlit("cqi");
    assert("cqi"@ =~= seq!['c', 'q', 'i']);
    reveal_strlit("cqmax");
    assert("cqmax"@ =~= seq!['c', 'q', 'm', 'a', 'x']);
    reveal_strlit("cqmin");
    assert("cqmin"@ =~= seq!['c', 'q', 'm', 'i', 'n']);
    reveal_strlit("cqw");
    assert("cqw"@ =~= seq!['c', 'q', 'w']);
    reveal_strlit("em");
    assert("em"@ =~= seq!['e', 'm']);
    reveal_strlit("ex");
    assert("ex"@ =~= seq!['e', 'x']);
    reveal_strlit("ic");
    assert("ic"@ =~= seq!['i', 'c']);
    reveal_strlit("in");
    assert("in"@ =~= seq!['i', 'n']);
    reveal_strlit("lh");
    assert("lh"@ =~= seq!['l', 'h']);
    reveal_strlit("mm");
    assert("mm"@ =~= seq!['m', 'm']);
    reveal_strlit("pc");
    assert("pc"@ =~= seq!['p', 'c']);
    reveal_strlit("pt");
    assert("pt"@ =~= seq!['p', 't']);
    reveal_strlit("px");
    assert("px"@ =~= seq!['p', 'x']);
    reveal_strlit("rcap");
    assert("rcap"@ =~= seq!['r', 'c', 'a', 'p']);
    reveal_strlit("rch");
    assert("rch"@ =~= seq!['r', 'c', 'h']);
    reveal_strlit("rem");
    assert("rem"@ =~= seq!['r', 'e', 'm']);
    reveal_strlit("rex");
    assert("rex"@ =~= seq!['r', 'e', 'x']);
    reveal_strlit("ric");
    assert("ric"@ =~= seq!['r', 'i', 'c']);
    reveal_strlit("rlh");
    assert("rlh"@ =~= seq!['r', 'l', 'h']);
    reveal_strlit("vMax");
    assert("vMax"@ =~= seq!['v', 'M', 'a', 'x']);
    reveal_strlit("vMin");
    assert("vMin"@ =~= seq!['v', 'M', 'i', 'n']);
    reveal_strlit("vb");
    assert("vb"@ =~= seq!['v', 'b']);
    reveal_strlit("vh");
    assert("vh"@ =~= seq!['v', 'h']);
    reveal_strlit("vi");
    assert("vi"@ =~= seq!['v', 'i']);
    reveal_strlit("vmax");
    assert("vmax"@ =~= seq!['v', 'm', 'a', 'x']);
    reveal_strlit("vmin");
    assert("vmin"@ =~= seq!['v', 'm', 'i', 'n']);
    reveal_strlit("vw");
    assert("vw"@ =~= seq!['v', 'w']);
}

/// Printing an angle and reading its unit back gives the same angle.
pub proof fn lemma_angle_unit_round_trip(q: Angle)
    ensures
        Angle::spec_from_pair(q.spec_value(), q.spec_suffix()) == Some(q),
{
    reveal_strlit("deg");
    assert("deg"@ =~= seq!['d', 'e', 'g']);
    reveal_strlit("grad");
    assert("grad"@ =~= seq!['g', 'r', 'a', 'd']);
    reveal_strlit("rad");
    assert("rad"@ =~= seq!['r', 'a', 'd']);
    reveal_strlit("turn");
    assert("turn"@ =~= seq!['t', 'u', 'r', 'n']);
}

/// Printing a resolution and reading its unit back gives the same resolution.
pub proof fn lemma_resolution_unit_round_trip(q: Resolution)
    ensures
        Resolution::spec_from_pair(q.spec_value(), q.spec_suffix()) == Some(q),
{
    reveal_strlit("dpcm");
    assert("dpcm"@ =~= seq!['d', 'p', 'c', 'm']);
    reveal_strlit("dpi");
    assert("dpi"@ =~= seq!['d', 'p', 'i']);
    reveal_strlit("dppx");
    assert("dppx"@ =~= seq!['d', 'p', 'p', 'x']);
    reveal_strlit("x");
    assert("x"@ =~= seq!['x']);
}

/// Every unit of length is read as the length of that same unit, whatever the number, and
/// prints with the unit it was read from.
pub proof fn lemma_length_unit_names()
    ensures
        forall|num: CssNumber| #[trigger] Length::spec_from_pair(num, "cm"@) == Some(Length::Cm(num)),
        forall|num: CssNumber| #[trigger] Length::spec_from_pair(num, "mm"@) == Some(Length::Mm(num)),
        forall|num: CssNumber| #[trigger] Length::spec_from_pair(num, "Q"@) == Some(Length::Q(num)),
        forall|num: CssNumber| #[trigger] Length::spec_from_pair(num, "in"@) == Some(Length::In(num)),
        forall|num: CssNumber| #[trigger] Length::spec_from_pair(num, "pc"@) == Some(Length::Pc(num)),
        forall|num: CssNumber| #[trigger] Length::spec_from_pair(num, "pt"@) == Some(Length::Pt(num)),
        forall|num: CssNumber| #[trigger] Length::spec_from_pair(num, "px"@) == Some(Length::Px(num)),
        forall|num: CssNumber| #[trigger] Length::spec_from_pair(num, "cap"@) == Some(Length::Cap(num)),
        forall|num: CssNumber| #[trigger] Length::spec_from_pair(num, "ch"@) == Some(Length::Ch(num)),
        forall|num: CssNumber| #[trigger] Length::spec_from_pair(num, "em"@) == Some(Length::Em(num)),
        forall|num: CssNumber| #[trigger] Length::spec_from_pair(num, "ex"@) == Some(Length::Ex(num)),
        forall|num: CssNumber| #[trigger] Length::spec_from_pair(num, "ic"@) == Some(Length::Ic(num)),
        forall|num: CssNumber| #[trigger] Length::spec_from_pair(num, "lh"@) == Some(Length::Lh(num)),
        forall|num: CssNumber| #[trigger] Length::spec_from_pair(num, "rcap"@) == Some(Length::RCap(num)),
        forall|num: CssNumber| #[trigger] Length::spec_from_pair(num, "rch"@) == Some(Length::RCh(num)),
        forall|num: CssNumber| #[trigger] Length::spec_from_pair(num, "rem"@) == Some(Length::REm(num)),
        forall|num: CssNumber| #[trigger] Length::spec_from_pair(num, "rex"@) == Some(Length::REx(num)),
        forall|num: CssNumber| #[trigger] Length::spec_from_pair(num, "ric"@) == Some(Length::RIc(num)),
        forall|num: CssNumber| #[trigger] Length::spec_from_pair(num, "rlh"@) == Some(Length::RLh(num)),
        forall|num: CssNumber| #[trigger] Length::spec_from_pair(num, "vh"@) == Some(Length::Vh(num)),
        forall|num: CssNumber| #[trigger] Length::spec_from_pair(num, "vw"@) == Some(Length::Vw(num)),
        forall|num: CssNumber| #[trigger] Length::spec_from_pair(num, "vMax"@) == Some(Length::VMax(num)),
        forall|num: CssNumber| #[trigger] Length::spec_from_pair(num, "vMin"@) == Some(Length::VMin(num)),
        forall|num: CssNumber| #[trigger] Length::spec_from_pair(num, "vb"@) == Some(Length::Vb(num)),
        forall|num: CssNumber| #[trigger] Length::spec_from_pair(num, "vi"@) == Some(Length::Vi(num)),
        forall|num: CssNumber| #[trigger] Length::spec_from_pair(num, "cqw"@) == Some(Length::Cqw(num)),
        forall|num: CssNumber| #[trigger] Length::spec_from_pair(num, "cqh"@) == Some(Length::Cqh(num)),
        forall|num: CssNumber| #[trigger] Length::spec_from_pair(num, "cqi"@) == Some(Length::Cqi(num)),
        forall|num: CssNumber| #[trigger] Length::spec_from_pair(num, "cqb"@) == Some(Length::Cqb(num)),
        forall|num: CssNumber| #[trigger] Length::spec_from_pair(num, "cqmin"@) == Some(Length::CqMin(num)),
        forall|num: CssNumber| #[trigger] Length::spec_from_pair(num, "cqmax"@) == Some(Length::CqMax(num)),
        forall|num: CssNumber| #[trigger] Length::Cm(num).spec_suffix() == "cm"@,
        forall|num: CssNumber| #[trigger] Length::Mm(num).spec_suffix() == "mm"@,
        forall|num: CssNumber| #[trigger] Length::Q(num).spec_suffix() == "Q"@,
        forall|num: CssNumber| #[trigger] Length::In(num).spec_suffix() == "in"@,
        forall|num: CssNumber| #[trigger] Length::Pc(num).spec_suffix() == "pc"@,
        forall|num: CssNumber| #[trigger] Length::Pt(num).spec_suffix() == "pt"@,
        forall|num: CssNumber| #[trigger] Length::Px(num).spec_suffix() == "px"@,
        forall|num: CssNumber| #[trigger] Length::Cap(num).spec_suffix() == "cap"@,
        forall|num: CssNumber| #[trigger] Length::Ch(num).spec_suffix() == "ch"@,
        forall|num: CssNumber| #[trigger] Length::Em(num).spec_suffix() == "em"@,
        forall|num: CssNumber| #[trigger] Length::Ex(num).spec_suffix() == "ex"@,
        forall|num: CssNumber| #[trigger] Length::Ic(num).spec_suffix() == "ic"@,
        forall|num: CssNumber| #[trigger] Length::Lh(num).spec_suffix() == "lh"@,
        forall|num: CssNumber| #[trigger] Length::RCap(num).spec_suffix() == "rcap"@,
        forall|num: CssNumber| #[trigger] Length::RCh(num).spec_suffix() == "rch"@,
        forall|num: CssNumber| #[trigger] Length::REm(num).spec_suffix() == "rem"@,
        forall|num: CssNumber| #[trigger] Length::REx(num).spec_suffix() == "rex"@,
        forall|num: CssNumber| #[trigger] Length::RIc(num).spec_suffix() == "ric"@,
        forall|num: CssNumber| #[trigger] Length::RLh(num).spec_suffix() == "rlh"@,
        forall|num: CssNumber| #[trigger] Length::Vh(num).spec_suffix() == "vh"@,
        forall|num: CssNumber| #[trigger] Length::Vw(num).spec_suffix() == "vw"@,
        forall|num: CssNumber| #[trigger] Length::VMax(num).spec_suffix() == "vmax"@,
        forall|num: CssNumber| #[trigger] Length::VMin(num).spec_suffix() == "vmin"@,
        forall|num: CssNumber| #[trigger] Length::Vb(num).spec_suffix() == "vb"@,
        forall|num: CssNumber| #[trigger] Length::Vi(num).spec_suffix() == "vi"@,
        forall|num: CssNumber| #[trigger] Length::Cqw(num).spec_suffix() == "cqw"@,
        forall|num: CssNumber| #[trigger] Length::Cqh(num).spec_suffix() == "cqh"@,
        forall|num: CssNumber| #[trigger] Length::Cqi(num).spec_suffix() == "cqi"@,
        forall|num: CssNumber| #[trigger] Length::Cqb(num).spec_suffix() == "cqb"@,
        forall|num: CssNumber| #[trigger] Length::CqMin(num).spec_suffix() == "cqmin"@,
        forall|num: CssNumber| #[trigger] Length::CqMax(num).spec_suffix() == "cqmax"@,
{
    reveal_strlit("Q");
    assert("Q"@ =~= seq!['Q']);
    reveal_strlit("cap");
    assert("cap"@ =~= seq!['c', 'a', 'p']);
    reveal_strlit("ch");
    assert("ch"@ =~= seq!['c', 'h']);
    reveal_strlit("cm");
    assert("cm"@ =~= seq!['c', 'm']);
    reveal_strlit("cqb");
    assert("cqb"@ =~= seq!['c', 'q', 'b']);
    reveal_strlit("cqh");
    assert("cqh"@ =~= seq!['c', 'q', 'h']);
    reveal_strlit("cqi");
    assert("cqi"@ =~= seq!['c', 'q', 'i']);
    reveal_strlit("cqmax");
    assert("cqmax"@ =~= seq!['c', 'q', 'm', 'a', 'x']);
    reveal_strlit("cqmin");
    assert("cqmin"@ =~= seq!['c', 'q', 'm', 'i', 'n']);
    reveal_strlit("cqw");
    assert("cqw"@ =~= seq!['c', 'q', 'w']);
    reveal_strlit("em");
    assert("em"@ =~= seq!['e', 'm']);
    reveal_strlit("ex");
    assert("ex"@ =~= seq!['e', 'x']);
    reveal_strlit("ic");
    assert("ic"@ =~= seq!['i', 'c']);
    reveal_strlit("in");
    assert("in"@ =~= seq!['i', 'n']);
    reveal_strlit("lh");
    assert("lh"@ =~= seq!['l', 'h']);
    reveal_strlit("mm");
    assert("mm"@ =~= seq!['m', 'm']);
    reveal_strlit("pc");
    assert("pc"@ =~= seq!['p', 'c']);
    reveal_strlit("pt");
    assert("pt"@ =~= seq!['p', 't']);
    reveal_strlit("px");
    assert("px"@ =~= seq!['p', 'x']);
    reveal_strlit("rcap");
    assert("rcap"@ =~= seq!['r', 'c', 'a', 'p']);
    reveal_strlit("rch");
    assert("rch"@ =~= seq!['r', 'c', 'h']);
    reveal_strlit("rem");
    assert("rem"@ =~= seq!['r', 'e', 'm']);
    reveal_strlit("rex");
    assert("rex"@ =~= seq!['r', 'e', 'x']);
    reveal_strlit("ric");
    assert("ric"@ =~= seq!['r', 'i', 'c']);
    reveal_strlit("rlh");
    assert("rlh"@ =~= seq!['r', 'l', 'h']);
    reveal_strlit("vMax");
    assert("vMax"@ =~= seq!['v', 'M', 'a', 'x']);
    reveal_strlit("vMin");
    assert("vMin"@ =~= seq!['v', 'M', 'i', 'n']);
    reveal_strlit("vb");
    assert("vb"@ =~= seq!['v', 'b']);
    reveal_strlit("vh");
    assert("vh"@ =~= seq!['v', 'h']);
    reveal_strlit("vi");
    assert("vi"@ =~= seq!['v', 'i']);
    reveal_strlit("vmax");
    assert("vmax"@ =~= seq!['v', 'm', 'a', 'x']);
    reveal_strlit("vmin");
    assert("vmin"@ =~= seq!['v', 'm', 'i', 'n']);
    reveal_strlit("vw");
    assert("vw"@ =~= seq!['v', 'w']);
    reveal_strlit("vMax");
    assert("vMax"@ =~= seq!['v', 'M', 'a', 'x']);
    reveal_strlit("vMin");
    assert("vMin"@ =~= seq!['v', 'M', 'i', 'n']);
    assert forall|num: CssNumber| #[trigger] Length::spec_from_pair(num, "cm"@) == Some(Length::Cm(num)) by {
        lemma_length_unit_round_trip(Length::Cm(num));
    }
    assert forall|num: CssNumber| #[trigger] Length::spec_from_pair(num, "mm"@) == Some(Length::Mm(num)) by {
        lemma_length_unit_round_trip(Length::Mm(num));
    }
    assert forall|num: CssNumber| #[trigger] Length::spec_from_pair(num, "Q"@) == Some(Length::Q(num)) by {
        lemma_length_unit_round_trip(Length::Q(num));
    }
    assert forall|num: CssNumber| #[trigger] Length::spec_from_pair(num, "in"@) == Some(Length::In(num)) by {
        lemma_length_unit_round_trip(Length::In(num));
    }
    assert forall|num: CssNumber| #[trigger] Length::spec_from_pair(num, "pc"@) == Some(Length::Pc(num)) by {
        lemma_length_unit_round_trip(Length::Pc(num));
    }
    assert forall|num: CssNumber| #[trigger] Length::spec_from_pair(num, "pt"@) == Some(Length::Pt(num)) by {
        lemma_length_unit_round_trip(Length::Pt(num));
    }
    assert forall|num: CssNumber| #[trigger] Length::spec_from_pair(num, "px"@) == Some(Length::Px(num)) by {
        lemma_length_unit_round_trip(Length::Px(num));
    }
    assert forall|num: CssNumber| #[trigger] Length::spec_from_pair(num, "cap"@) == Some(Length::Cap(num)) by {
        lemma_length_unit_round_trip(Length::Cap(num));
    }
    assert forall|num: CssNumber| #[trigger] Length::spec_from_pair(num, "ch"@) == Some(Length::Ch(num)) by {
        lemma_length_unit_round_trip(Length::Ch(num));
    }
    assert forall|num: CssNumber| #[trigger] Length::spec_from_pair(num, "em"@) == Some(Length::Em(num)) by {
        lemma_length_unit_round_trip(Length::Em(num));
    }
    assert forall|num: CssNumber| #[trigger] Length::spec_from_pair(num, "ex"@) == Some(Length::Ex(num)) by {
        lemma_length_unit_round_trip(Length::Ex(num));
    }
    assert forall|num: CssNumber| #[trigger] Length::spec_from_pair(num, "ic"@) == Some(Length::Ic(num)) by {
        lemma_length_unit_round_trip(Length::Ic(num));
    }
    assert forall|num: CssNumber| #[trigger] Length::spec_from_pair(num, "lh"@) == Some(Length::Lh(num)) by {
        lemma_length_unit_round_trip(Length::Lh(num));
    }
    assert forall|num: CssNumber| #[trigger] Length::spec_from_pair(num, "rcap"@) == Some(Length::RCap(num)) by {
        lemma_length_unit_round_trip(Length::RCap(num));
    }
    assert forall|num: CssNumber| #[trigger] Length::spec_from_pair(num, "rch"@) == Some(Length::RCh(num)) by {
        lemma_length_unit_round_trip(Length::RCh(num));
    }
    assert forall|num: CssNumber| #[trigger] Length::spec_from_pair(num, "rem"@) == Some(Length::REm(num)) by {
        lemma_length_unit_round_trip(Length::REm(num));
    }
    assert forall|num: CssNumber| #[trigger] Length::spec_from_pair(num, "rex"@) == Some(Length::REx(num)) by {
        lemma_length_unit_round_trip(Length::REx(num));
    }
    assert forall|num: CssNumber| #[trigger] Length::spec_from_pair(num, "ric"@) == Some(Length::RIc(num)) by {
        lemma_length_unit_round_trip(Length::RIc(num));
    }
    assert forall|num: CssNumber| #[trigger] Length::spec_from_pair(num, "rlh"@) == Some(Length::RLh(num)) by {
        lemma_length_unit_round_trip(Length::RLh(num));
    }
    assert forall|num: CssNumber| #[trigger] Length::spec_from_pair(num, "vh"@) == Some(Length::Vh(num)) by {
        lemma_length_unit_round_trip(Length::Vh(num));
    }
    assert forall|num: CssNumber| #[trigger] Length::spec_from_pair(num, "vw"@) == Some(Length::Vw(num)) by {
        lemma_length_unit_round_trip(Length::Vw(num));
    }
    assert forall|num: CssNumber| #[trigger] Length::spec_from_pair(num, "vMax"@) == Some(Length::VMax(num)) by {}
    assert forall|num: CssNumber| #[trigger] Length::spec_from_pair(num, "vMin"@) == Some(Length::VMin(num)) by {}
    assert forall|num: CssNumber| #[trigger] Length::spec_from_pair(num, "vb"@) == Some(Length::Vb(num)) by {
        lemma_length_unit_round_trip(Length::Vb(num));
    }
    assert forall|num: CssNumber| #[trigger] Length::spec_from_pair(num, "vi"@) == Some(Length::Vi(num)) by {
        lemma_length_unit_round_trip(Length::Vi(num));
    }
    assert forall|num: CssNumber| #[trigger] Length::spec_from_pair(num, "cqw"@) == Some(Length::Cqw(num)) by {
        lemma_length_unit_round_trip(Length::Cqw(num));
    }
    assert forall|num: CssNumber| #[trigger] Length::spec_from_pair(num, "cqh"@) == Some(Length::Cqh(num)) by {
        lemma_length_unit_round_trip(Length::Cqh(num));
    }
    assert forall|num: CssNumber| #[trigger] Length::spec_from_pair(num, "cqi"@) == Some(Length::Cqi(num)) by {
        lemma_length_unit_round_trip(Length::Cqi(num));
    }
    assert forall|num: CssNumber| #[trigger] Length::spec_from_pair(num, "cqb"@) == Some(Length::Cqb(num)) by {
        lemma_length_unit_round_trip(Length::Cqb(num));
    }
    assert forall|num: CssNumber| #[trigger] Length::spec_from_pair(num, "cqmin"@) == Some(Length::CqMin(num)) by {
        lemma_length_unit_round_trip(Length::CqMin(num));
    }
    assert forall|num: CssNumber| #[trigger] Length::spec_from_pair(num, "cqmax"@) == Some(Length::CqMax(num)) by {
        lemma_length_unit_round_trip(Length::CqMax(num));
    }
}

/// Every unit of angle is read as the angle of that same unit, whatever the number, and
/// prints with the unit it was read from.
pub proof fn lemma_angle_unit_names()
    ensures
        forall|num: CssNumber| #[trigger] Angle::spec_from_pair(num, "deg"@) == Some(Angle::Deg(num)),
        forall|num: CssNumber| #[trigger] Angle::spec_from_pair(num, "grad"@) == Some(Angle::Grad(num)),
        forall|num: CssNumber| #[trigger] Angle::spec_from_pair(num, "rad"@) == Some(Angle::Rad(num)),
        forall|num: CssNumber| #[trigger] Angle::spec_from_pair(num, "turn"@) == Some(Angle::Turn(num)),
        forall|num: CssNumber| #[trigger] Angle::Deg(num).spec_suffix() == "deg"@,
        forall|num: CssNumber| #[trigger] Angle::Grad(num).spec_suffix() == "grad"@,
        forall|num: CssNumber| #[trigger] Angle::Rad(num).spec_suffix() == "rad"@,
        forall|num: CssNumber| #[trigger] Angle::Turn(num).spec_suffix() == "turn"@,
{
    assert forall|num: CssNumber| #[trigger] Angle::spec_from_pair(num, "deg"@) == Some(Angle::Deg(num)) by {
        lemma_angle_unit_round_trip(Angle::Deg(num));
    }
    assert forall|num: CssNumber| #[trigger] Angle::spec_from_pair(num, "grad"@) == Some(Angle::Grad(num)) by {
        lemma_angle_unit_round_trip(Angle::Grad(num));
    }
    assert forall|num: CssNumber| #[trigger] Angle::spec_from_pair(num, "rad"@) == Some(Angle::Rad(num)) by {
        lemma_angle_unit_round_trip(Angle::Rad(num));
    }
    assert forall|num: CssNumber| #[trigger] Angle::spec_from_pair(num, "turn"@) == Some(Angle::Turn(num)) by {
        lemma_angle_unit_round_trip(Angle::Turn(num));
    }
}

/// Every unit of resolution is read as the resolution of that same unit, whatever the number, and
/// prints with the unit it was read from; `x` is read as `dppx` would be.
pub proof fn lemma_resolution_unit_names()
    ensures
        forall|num: CssNumber| #[trigger] Resolution::spec_from_pair(num, "dpi"@) == Some(Resolution::Dpi(num)),
        forall|num: CssNumber| #[trigger] Resolution::spec_from_pair(num, "dpcm"@) == Some(Resolution::Dpcm(num)),
        forall|num: CssNumber| #[trigger] Resolution::spec_from_pair(num, "dppx"@) == Some(Resolution::Dppx(num)),
        forall|num: CssNumber| #[trigger] Resolution::spec_from_pair(num, "x"@) == Some(Resolution::Dppx(num)),
        forall|num: CssNumber| #[trigger] Resolution::Dpi(num).spec_suffix() == "dpi"@,
        forall|num: CssNumber| #[trigger] Resolution::Dpcm(num).spec_suffix() == "dpcm"@,
        forall|num: CssNumber| #[trigger] Resolution::Dppx(num).spec_suffix() == "x"@,
{
    assert forall|num: CssNumber| #[trigger] Resolution::spec_from_pair(num, "dpi"@) == Some(Resolution::Dpi(num)) by {
        lemma_resolution_unit_round_trip(Resolution::Dpi(num));
    }
    assert forall|num: CssNumber| #[trigger] Resolution::spec_from_pair(num, "dpcm"@) == Some(Resolution::Dpcm(num)) by {
        lemma_resolution_unit_round_trip(Resolution::Dpcm(num));
    }
    reveal_strlit("dpi");
    assert("dpi"@ =~= seq!['d', 'p', 'i']);
    reveal_strlit("dpcm");
    assert("dpcm"@ =~= seq!['d', 'p', 'c', 'm']);
    reveal_strlit("dppx");
    assert("dppx"@ =~= seq!['d', 'p', 'p', 'x']);
    assert forall|num: CssNumber| #[trigger] Resolution::spec_from_pair(num, "dppx"@) == Some(Resolution::Dppx(num)) by {}
    assert forall|num: CssNumber| #[trigger] Resolution::spec_from_pair(num, "x"@) == Some(Resolution::Dppx(num)) by {
        lemma_resolution_unit_round_trip(Resolution::Dppx(num));
    }
}

/// A time in seconds prints with the unit `s`, one in milliseconds with `ms`, whatever the
/// number.
pub proof fn lemma_time_unit_names()
    ensures
        forall|num: CssNumber| #[trigger] Time::Sec(num).spec_suffix() == "s"@,
        forall|num: CssNumber| #[trigger] Time::Milli(num).spec_suffix() == "ms"@,
{
}

/// A number with a unit.
#[derive(Debug)]
pub enum Dimension {
    Length(Length),
    Angle(Angle),
    Time(Time),
    Resolution(Resolution),
}

impl Dimension {
    /// The number the quantity carries.
    pub open spec fn spec_value(self) -> CssNumber {
        match self {
            Dimension::Length(length) => length.spec_value(),
            Dimension::Angle(angle) => angle.spec_value(),
            Dimension::Time(time) => time.spec_value(),
            Dimension::Resolution(resolution) => resolution.spec_value(),
        }
    }

    /// The quantity of `num` in the unit spelled `unit`: a length, else an angle, else a
    /// resolution.
    pub open spec fn spec_from_pair(num: CssNumber, unit: Seq<char>) -> Option<Self> {
        match Length::spec_from_pair(num, unit) {
            Some(length) => Some(Dimension::Length(length)),
            None => match Angle::spec_from_pair(num, unit) {
                Some(angle) => Some(Dimension::Angle(angle)),
                None => match Resolution::spec_from_pair(num, unit) {
                    Some(resolution) => Some(Dimension::Resolution(resolution)),
                    None => None,
                },
            },
        }
    }

    /// `unit` spells a unit of length, angle or resolution.
    pub open spec fn spec_knows_unit(unit: Seq<char>) -> bool {
        forall|n: CssNumber| #[trigger] Self::spec_from_pair(n, unit) is Some
    }

    /// The quantity of `num` in the unit spelled `unit`, if the spelling names one.
    pub fn from_pair(num: CssNumber, unit: &str) -> (r: Option<Self>)
        ensures
            r == Self::spec_from_pair(num, unit@),
            r is Some <==> Self::spec_knows_unit(unit@),
    {
        proof {
            lemma_dimension_unit_decides(num, unit@);
        }
        if let Some(length) = Length::from_pair(num.clone(), unit) {
            Some(Dimension::Length(length))
        } else if let Some(angle) = Angle::from_pair(num.clone(), unit) {
            Some(Dimension::Angle(angle))
        } else if let Some(resolution) = Resolution::from_pair(num, unit) {
            Some(Dimension::Resolution(resolution))
        } else {
            None
        }
    }
}

/// Whether a number and a unit make a dimension depends on the unit alone.
pub proof fn lemma_dimension_unit_decides(n: CssNumber, unit: Seq<char>)
    ensures
        Dimension::spec_from_pair(n, unit) is Some <==> Dimension::spec_knows_unit(unit),
{
    if Dimension::spec_from_pair(n, unit) is Some {
        assert forall|m: CssNumber| #[trigger] Dimension::spec_from_pair(m, unit) is Some by {}
    }
}

/// A percentage; the number is the amount before `%`.
#[derive(Debug)]
pub struct Percentage(pub CssNumber);

/// A hash value such as a colour; the text after `#`.
#[derive(Debug)]
pub struct Hash(pub String);

/// A component value of a declaration.
#[derive(Debug)]
pub enum Unit {
    Integer(i32),
    Number(CssNumber),
    Dimension(Dimension),
    Percentage(Percentage),
    String(String),
    Hash(Hash),
    Function { name: String, required_return_type: TokenExpected, params: Vec<Unit> },
    Shorthand(Box<Unit>, Box<Unit>),
    UnknownIdent(String),
}

impl Clone for Length {
    fn clone(&self) -> (r: Self)
        ensures
            r == *self,
    {
        match self {
            Length::Cm(num) => Length::Cm(num.clone()),
            Length::Mm(num) => Length::Mm(num.clone()),
            Length::Q(num) => Length::Q(num.clone()),
            Length::In(num) => Length::In(num.clone()),
            Length::Pc(num) => Length::Pc(num.clone()),
            Length::Pt(num) => Length::Pt(num.clone()),
            Length::Px(num) => Length::Px(num.clone()),
            Length::Cap(num) => Length::Cap(num.clone()),
            Length::Ch(num) => Length::Ch(num.clone()),
            Length::Em(num) => Length::Em(num.clone()),
            Length::Ex(num) => Length::Ex(num.clone()),
            Length::Ic(num) => Length::Ic(num.clone()),
            Length::Lh(num) => Length::Lh(num.clone()),
            Length::RCap(num) => Length::RCap(num.clone()),
            Length::RCh(num) => Length::RCh(num.clone()),
            Length::REm(num) => Length::REm(num.clone()),
            Length::REx(num) => Length::REx(num.clone()),
            Length::RIc(num) => Length::RIc(num.clone()),
            Length::RLh(num) => Length::RLh(num.clone()),
            Length::Vh(num) => Length::Vh(num.clone()),
            Length::Vw(num) => Length::Vw(num.clone()),
            Length::VMax(num) => Length::VMax(num.clone()),
            Length::VMin(num) => Length::VMin(num.clone()),
            Length::Vb(num) => Length::Vb(num.clone()),
            Length::Vi(num) => Length::Vi(num.clone()),
            Length::Cqw(num) => Length::Cqw(num.clone()),
            Length::Cqh(num) => Length::Cqh(num.clone()),
            Length::Cqi(num) => Length::Cqi(num.clone()),
            Length::Cqb(num) => Length::Cqb(num.clone()),
            Length::CqMin(num) => Length::CqMin(num.clone()),
            Length::CqMax(num) => Length::CqMax(num.clone()),
        }
    }
}

impl Clone for Angle {
    fn clone(&self) -> (r: Self)
        ensures
            r == *self,
    {
        match self {
            Angle::Deg(num) => Angle::Deg(num.clone()),
            Angle::Grad(num) => Angle::Grad(num.clone()),
            Angle::Rad(num) => Angle::Rad(num.clone()),
            Angle::Turn(num) => Angle::Turn(num.clone()),
        }
    }
}

impl Clone for Time {
    fn clone(&self) -> (r: Self)
        ensures
            r == *self,
    {
        match self {
            Time::Sec(num) => Time::Sec(num.clone()),
            Time::Milli(num) => Time::Milli(num.clone()),
        }
    }
}

impl Clone for Resolution {
    fn clone(&self) -> (r: Self)
        ensures
            r == *self,
    {
        match self {
            Resolution::Dpi(num) => Resolution::Dpi(num.clone()),
            Resolution::Dpcm(num) => Resolution::Dpcm(num.clone()),
            Resolution::Dppx(num) => Resolution::Dppx(num.clone()),
        }
    }
}

impl Clone for Dimension {
    fn clone(&self) -> (r: Self)
        ensures
            r == *self,
    {
        match self {
            Dimension::Length(q) => Dimension::Length(q.clone()),
            Dimension::Angle(q) => Dimension::Angle(q.clone()),
            Dimension::Time(q) => Dimension::Time(q.clone()),
            Dimension::Resolution(q) => Dimension::Resolution(q.clone()),
        }
    }
}

impl Clone for Percentage {
    fn clone(&self) -> (r: Self)
        ensures
            r == *self,
    {
        Percentage(self.0.clone())
    }
}

impl Clone for Hash {
    fn clone(&self) -> (r: Self)
        ensures
            r == *self,
    {
        Hash(self.0.clone())
    }
}

/// `a` and `b` hold the same unit: equal, except that parameter lists are compared element by
/// element.
pub open spec fn unit_eq(a: Unit, b: Unit) -> bool
    decreases a,
{
    match a {
        Unit::Function { name, required_return_type, params } => match b {
            Unit::Function { name: name2, required_return_type: type2, params: params2 } => {
                &&& name == name2
                &&& required_return_type == type2
                &&& params@.len() == params2@.len()
                &&& forall|i: int|
                    #![trigger params@[i]]
                    0 <= i < params@.len() ==> unit_eq(params@[i], params2@[i])
            },
            _ => false,
        },
        Unit::Shorthand(x, y) => match b {
            Unit::Shorthand(x2, y2) => unit_eq(*x, *x2) && unit_eq(*y, *y2),
            _ => false,
        },
        _ => a == b,
    }
}

/// Every unit is the same as itself.
pub proof fn lemma_unit_eq_refl(u: Unit)
    ensures
        unit_eq(u, u),
    decreases u,
{
    match u {
        Unit::Function { name, required_return_type, params } => {
            assert forall|i: int| 0 <= i < params@.len() implies unit_eq(
                #[trigger] params@[i],
                params@[i],
            ) by {
                lemma_unit_eq_refl(params@[i]);
            }
        },
        Unit::Shorthand(x, y) => {
            lemma_unit_eq_refl(*x);
            lemma_unit_eq_refl(*y);
        },
        _ => {},
    }
}

/// A copy of `unit`.
pub fn clone_unit(unit: &Unit) -> (r: Unit)
    ensures
        unit_eq(*unit, r),
    decreases unit,
{
    match unit {
        Unit::Integer(i) => Unit::Integer(*i),
        Unit::Number(n) => Unit::Number(n.clone()),
        Unit::Dimension(d) => Unit::Dimension(d.clone()),
        Unit::Percentage(p) => Unit::Percentage(p.clone()),
        Unit::String(s) => Unit::String(s.clone()),
        Unit::Hash(h) => Unit::Hash(h.clone()),
        Unit::Function { name, required_return_type, params } => {
            let mut copied: Vec<Unit> = Vec::new();
            let mut i: usize = 0;
            while i < params.len()
                invariant
                    *unit matches Unit::Function { params: p, .. } && p == *params,
                    i <= params@.len(),
                    copied@.len() == i,
                    forall|k: int| #![trigger params@[k]] 0 <= k < i ==> unit_eq(params@[k], copied@[k]),
                decreases params@.len() - i,
            {
                proof {
                    vstd::std_specs::vec::axiom_vec_index_decreases(*params, i as int);
                    assert(decreases_to!(*unit => params[i as int]));
                }
                let c = clone_unit(&params[i]);
                copied.push(c);
                i += 1;
            }
            Unit::Function { name: name.clone(), required_return_type: *required_return_type, params: copied }
        },
        Unit::Shorthand(a, b) => Unit::Shorthand(Box::new(clone_unit(a)), Box::new(clone_unit(b))),
        Unit::UnknownIdent(s) => Unit::UnknownIdent(s.clone()),
    }
}

impl Clone for Unit {
    fn clone(&self) -> (r: Self)
        ensures
            unit_eq(*self, r),
    {
        clone_unit(self)
    }
}



impl Dimension {
    /// The quantity printed as CSS.
    pub open spec fn spec_css(self) -> Seq<char> {
        match self {
            Dimension::Length(q) => q.spec_value().text@ + q.spec_suffix(),
            Dimension::Angle(q) => q.spec_value().text@ + q.spec_suffix(),
            Dimension::Time(q) => q.spec_value().text@ + q.spec_suffix(),
            Dimension::Resolution(q) => q.spec_value().text@ + q.spec_suffix(),
        }
    }

    /// The quantity printed as CSS: its number followed by its unit.
    pub fn to_css_string(&self) -> (r: String)
        ensures
            r@ == self.spec_css(),
    {
        match self {
            Dimension::Length(q) => q.to_css_string(),
            Dimension::Angle(q) => q.to_css_string(),
            Dimension::Time(q) => q.to_css_string(),
            Dimension::Resolution(q) => q.to_css_string(),
        }
    }
}

/// A unit printed as CSS: a number as written, a dimension with its unit, a percentage's number,
/// a string in double quotes, a hash after `#`, a shorthand's halves around `/`, an identifier,
/// or a function's name with its parameters in parentheses, separated by `, `.
pub open spec fn unit_css(u: Unit) -> Seq<char>
    decreases u, 1nat, 0int,
{
    match u {
        Unit::Integer(i) => crate::text::int_text(i as int),
        Unit::Number(n) => n.text@,
        Unit::Dimension(d) => d.spec_css(),
        Unit::Percentage(p) => p.0.text@,
        Unit::String(s) => seq!['"'] + s@ + seq!['"'],
        Unit::Hash(h) => seq!['#'] + h.0@,
        Unit::Function { name, required_return_type: _, params } => name@ + seq!['('] + params_css(
            u,
            params@.len() as int,
        ) + seq![')'],
        Unit::Shorthand(a, b) => unit_css(*a) + seq!['/'] + unit_css(*b),
        Unit::UnknownIdent(s) => s@,
    }
}

/// The first `n` parameters of the function `u` printed as CSS, separated by `, `.
pub open spec fn params_css(u: Unit, n: int) -> Seq<char>
    decreases u, 0nat, n,
{
    match u {
        Unit::Function { name: _, required_return_type: _, params } => if n <= 0 || n > params@.len() {
            Seq::empty()
        } else if n == 1 {
            unit_css(params@[0])
        } else {
            params_css(u, n - 1) + seq![',', ' '] + unit_css(params@[n - 1])
        },
        _ => Seq::empty(),
    }
}

/// Units that hold the same unit print the same CSS: a copy of a unit prints as the unit does.
pub proof fn lemma_same_units_print_alike(a: Unit, b: Unit)
    requires
        unit_eq(a, b),
    ensures
        unit_css(a) == unit_css(b),
    decreases a, 1nat, 0int,
{
    match a {
        Unit::Function { name: _, required_return_type: _, params } => {
            lemma_same_params_print_alike(a, b, params@.len() as int);
        },
        Unit::Shorthand(x, y) => {
            if let Unit::Shorthand(x2, y2) = b {
                lemma_same_units_print_alike(*x, *x2);
                lemma_same_units_print_alike(*y, *y2);
            }
        },
        _ => {},
    }
}

/// Functions that hold the same unit print their first `n` parameters alike.
proof fn lemma_same_params_print_alike(a: Unit, b: Unit, n: int)
    requires
        unit_eq(a, b),
        a is Function,
    ensures
        params_css(a, n) == params_css(b, n),
    decreases a, 0nat, n,
{
    if let Unit::Function { name: _, required_return_type: _, params } = a {
        if let Unit::Function { name: _, required_return_type: _, params: params2 } = b {
            if 0 < n <= params@.len() {
                vstd::std_specs::vec::axiom_vec_index_decreases(params, n - 1);
                assert(unit_eq(params@[n - 1], params2@[n - 1]));
                lemma_same_units_print_alike(params@[n - 1], params2@[n - 1]);
                if n > 1 {
                    lemma_same_params_print_alike(a, b, n - 1);
                }
            }
        }
    }
}

impl Unit {
    /// The unit printed as CSS.
    pub fn to_css_string(&self) -> (r: String)
        ensures
            r@ == unit_css(*self),
        decreases self,
    {
        proof {
            reveal_strlit("\"");
            assert("\""@ =~= seq!['"']);
            reveal_strlit("#");
            assert("#"@ =~= seq!['#']);
            reveal_strlit("(");
            assert("("@ =~= seq!['(']);
            reveal_strlit(")");
            assert(")"@ =~= seq![')']);
            reveal_strlit("/");
            assert("/"@ =~= seq!['/']);
            reveal_strlit(", ");
            assert(", "@ =~= seq![',', ' ']);
        }
        match self {
            Unit::Integer(i) => crate::text::int_to_string(*i),
            Unit::Number(n) => n.text.clone(),
            Unit::Dimension(d) => d.to_css_string(),
            Unit::Percentage(p) => p.0.text.clone(),
            Unit::String(text) => {
                let mut r = "\"".to_owned();
                r.append(text.as_str());
                r.append("\"");
                r
            },
            Unit::Hash(h) => {
                let mut r = "#".to_owned();
                r.append(h.0.as_str());
                r
            },
            Unit::Function { name, required_return_type: _, params } => {
                let mut r = name.clone();
                r.append("(");
                assert(params_css(*self, 0) =~= Seq::<char>::empty());
                assert(r@ =~= name@ + seq!['('] + params_css(*self, 0));
                let mut i: usize = 0;
                while i < params.len()
                    invariant
                        *self matches Unit::Function { name: n, params: p, .. } && n == *name && p
                            == *params,
                        i <= params@.len(),
                        r@ == name@ + seq!['('] + params_css(*self, i as int),
                    decreases params@.len() - i,
                {
                    let ghost before = r@;
                    proof {
                        reveal_strlit(", ");
                        assert(", "@ =~= seq![',', ' ']);
                    }
                    if i > 0 {
                        r.append(", ");
                    }
                    proof {
                        vstd::std_specs::vec::axiom_vec_index_decreases(*params, i as int);
                        assert(decreases_to!(*self => params[i as int]));
                    }
                    let part = params[i].to_css_string();
                    r.append(part.as_str());
                    proof {
                        if i == 0 {
                            assert(params_css(*self, 0) =~= Seq::<char>::empty());
                            assert(r@ =~= name@ + seq!['('] + params_css(*self, 1));
                        } else {
                            assert(params_css(*self, i as int + 1) == params_css(*self, i as int) + seq![
                                ',',
                                ' ',
                            ] + unit_css(params@[i as int]));
                            assert(part@ == unit_css(params@[i as int]));
                            assert(before == name@ + seq!['('] + params_css(*self, i as int));
                            assert(r@ =~= before + seq![',', ' '] + part@);
                            assert(r@ =~= name@ + seq!['('] + params_css(*self, i as int + 1));
                        }
                    }
                    i += 1;
                }
                r.append(")");
                r
            },
            Unit::Shorthand(a, b) => {
                let mut r = a.to_css_string();
                r.append("/");
                r.append(b.to_css_string().as_str());
                r
            },
            Unit::UnknownIdent(text) => text.clone(),
        }
    }
}

} // verus!
