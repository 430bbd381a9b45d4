use peacock_crest::boo::Boo;
use peacock_crest::css::{
    BasicSelector, BackgroundColor, Color, Combinator, Display, DisplayOption, Position,
    Selector, SimpleSelector, Styleable, Visibility,
};
use peacock_crest::style::prop_validation::color::KeywordColor;
use peacock_crest::style::prop_validation::size::KeywordSize;
use peacock_crest::style::prop_validation::types::KeywordGlobal;
use peacock_crest::style::prop_validation::{CssKeyword, KeywordNone, TokenExpected};
use peacock_crest::text::{ascii_eq_ignore_case, concat_texts, int_to_string, str_eq};
use peacock_crest::unit::{
    clone_unit, Angle, CssNumber, Dimension, Length, Percentage, Resolution, Time, Unit,
};

#[test]
fn str_eq_compares_characters() {
    assert!(str_eq("padding", "padding"));
    assert!(!str_eq("padding", "Padding"));
    assert!(!str_eq("pad", "padding"));
    assert!(str_eq("", ""));
}

#[test]
fn ascii_case_is_ignored_only_for_letters() {
    assert!(ascii_eq_ignore_case("Background-COLOR", "background-color"));
    assert!(!ascii_eq_ignore_case("color", "colour"));
    assert!(!ascii_eq_ignore_case("a-b", "a_b"));
}

#[test]
fn concat_joins_in_order() {
    assert_eq!(concat_texts(&["a", "", "bc", "d"]), "abcd");
    assert_eq!(concat_texts(&[]), "");
}

#[test]
fn integers_print_in_decimal() {
    assert_eq!(int_to_string(0), "0");
    assert_eq!(int_to_string(42), "42");
    assert_eq!(int_to_string(-7), "-7");
    assert_eq!(int_to_string(i32::MIN), "-2147483648");
    assert_eq!(int_to_string(i32::MAX), "2147483647");
}

#[test]
fn lengths_read_and_print_their_units() {
    let px = Length::from_pair(CssNumber::new("48"), "px").unwrap();
    assert!(matches!(&px, Length::Px(n) if n.text == "48"));
    assert_eq!(px.to_css_string(), "48px");
    let q = Length::from_pair(CssNumber::new("2"), "Q").unwrap();
    assert_eq!(q.to_css_string(), "2Q");
    assert!(Length::from_pair(CssNumber::new("1"), "furlong").is_none());
    assert!(Length::from_pair(CssNumber::new("1"), "PX").is_none());
    let vmax = Length::from_pair(CssNumber::new("3"), "vMax").unwrap();
    assert_eq!(vmax.to_css_string(), "3vmax");
    assert!(Length::from_pair(CssNumber::new("3"), "vmax").is_none());
}

#[test]
fn dimensions_try_length_then_angle_then_resolution() {
    let em = Dimension::from_pair(CssNumber::new("1.5"), "em").unwrap();
    assert!(matches!(&em, Dimension::Length(Length::Em(n)) if n.text == "1.5"));
    let deg = Dimension::from_pair(CssNumber::new("90"), "deg").unwrap();
    assert!(matches!(&deg, Dimension::Angle(Angle::Deg(_))));
    assert_eq!(deg.to_css_string(), "90deg");
    let x = Dimension::from_pair(CssNumber::new("2"), "x").unwrap();
    assert!(matches!(&x, Dimension::Resolution(Resolution::Dppx(_))));
    assert_eq!(x.to_css_string(), "2x");
    assert!(Dimension::from_pair(CssNumber::new("1"), "s").is_none());
    let t = Dimension::Time(Time::Milli(CssNumber::new("250")));
    assert_eq!(t.to_css_string(), "250ms");
}

#[test]
fn units_print_as_css() {
    assert_eq!(Unit::Integer(-12).to_css_string(), "-12");
    assert_eq!(Unit::Number(CssNumber::new(".5")).to_css_string(), ".5");
    assert_eq!(Unit::Percentage(Percentage(CssNumber::new("50"))).to_css_string(), "50");
    assert_eq!(Unit::String("a b".to_string()).to_css_string(), "\"a b\"");
    assert_eq!(Unit::Hash(peacock_crest::unit::Hash("fff".to_string())).to_css_string(), "#fff");
    assert_eq!(Unit::UnknownIdent("auto".to_string()).to_css_string(), "auto");
    let shorthand = Unit::Shorthand(
        Box::new(Unit::Dimension(Dimension::Length(Length::Px(CssNumber::new("10"))))),
        Box::new(Unit::Integer(1)),
    );
    assert_eq!(shorthand.to_css_string(), "10px/1");
    let function = Unit::Function {
        name: "rgb".to_string(),
        required_return_type: TokenExpected::Hash(),
        params: vec![Unit::Integer(1), Unit::Integer(2), Unit::Integer(3)],
    };
    assert_eq!(function.to_css_string(), "rgb(1, 2, 3)");
    let empty = Unit::Function {
        name: "f".to_string(),
        required_return_type: TokenExpected::none(),
        params: vec![],
    };
    assert_eq!(empty.to_css_string(), "f()");
}

#[test]
fn cloned_units_print_the_same() {
    let function = Unit::Function {
        name: "calc".to_string(),
        required_return_type: TokenExpected::Dimension(),
        params: vec![Unit::UnknownIdent("a".to_string()), Unit::String("b".to_string())],
    };
    let copy = clone_unit(&function);
    assert_eq!(copy.to_css_string(), function.to_css_string());
    let copy2 = function.clone();
    assert_eq!(copy2.to_css_string(), "calc(a, \"b\")");
}

#[test]
fn token_flags_combine_as_sets() {
    let ident_dim = TokenExpected::Ident().or(TokenExpected::Dimension());
    assert_eq!(ident_dim.bits(), 65);
    assert!(ident_dim.intersects(&TokenExpected::Dimension()));
    assert!(!ident_dim.intersects(&TokenExpected::Number()));
    assert!(ident_dim.contains(&TokenExpected::Ident()));
    assert!(!ident_dim.contains(&TokenExpected::Ident().or(TokenExpected::Hash())));
    assert_eq!(ident_dim.and(TokenExpected::Ident()).bits(), 1);
    assert!(TokenExpected::none().is_none());
    assert_eq!(TokenExpected::Function().bits(), 128);
    assert_eq!(TokenExpected::UnquotedUrl().bits(), 8);
    assert_eq!(TokenExpected::QuotedString().bits(), 4);
    assert_eq!(TokenExpected::Percentage().bits(), 32);
}

#[test]
fn keywords_read_back_from_their_spelling() {
    assert_eq!(KeywordColor::from_str("red"), Ok(KeywordColor::Red));
    assert_eq!(KeywordColor::from_str("currentcolor"), Ok(KeywordColor::CurrentColor));
    assert!(KeywordColor::from_str("Red").is_err());
    assert_eq!(KeywordColor::White.as_str(), "white");
    assert_eq!(KeywordSize::from_str("max-content"), Ok(KeywordSize::MaxContent));
    assert_eq!(KeywordGlobal::from_str("revert-layer"), Ok(KeywordGlobal::RevertLayer));
    assert_eq!(KeywordGlobal::Unset.as_str(), "unset");
    assert!(KeywordNone::from_str("none").is_err());
    for k in [KeywordGlobal::Inherit, KeywordGlobal::Initial, KeywordGlobal::Revert] {
        assert_eq!(KeywordGlobal::from_str(k.as_str()), Ok(k));
    }
}

#[test]
fn plain_style_values() {
    assert_eq!(DisplayOption::from_str("none"), Ok(DisplayOption::NoDisplay));
    assert_eq!(DisplayOption::from_str("flow"), Ok(DisplayOption::Flow));
    assert!(matches!(DisplayOption::default(), DisplayOption::Inherit));
    let display = Display::default();
    assert_eq!(display.outer, DisplayOption::Block);
    assert_eq!(display.inner, DisplayOption::Flow);
    assert_eq!(Position::default(), Position::Static);
    assert_eq!(Position::from_str("absolute"), Ok(Position::Absolute));
    assert_eq!(Visibility::default(), Visibility::Visible);
    assert_eq!(Visibility::from_str("hidden"), Ok(Visibility::Hidden));
    assert_eq!(Combinator::from_str(">"), Ok(Combinator::Child));
    assert_eq!(Combinator::from_str(" "), Ok(Combinator::Descendent));
    assert_eq!(Combinator::from_str("||"), Ok(Combinator::Column));
    assert_eq!(Combinator::from_str("None"), Ok(Combinator::NoCombinator));
    assert!(Combinator::from_str(">>").is_err());
    let color = Color([255, 0, 0]);
    let background = BackgroundColor([0, 0, 255]);
    assert_eq!(color.0[0], 255);
    assert_eq!(background.0[2], 255);
}

struct Element;

impl Styleable for Element {
    fn get_name(&self) -> String {
        "div".to_string()
    }
    fn get_id(&self) -> Option<String> {
        None
    }
    fn get_classes(&self) -> Vec<String> {
        vec![]
    }
}

#[test]
fn simple_selectors() {
    let simple = SimpleSelector::new();
    assert!(simple.name.is_none() && simple.id.is_none() && simple.classes.is_empty());
    assert!(!simple.universal);
    assert_eq!(BasicSelector::Id("main".to_string()).inner(), Some("main".to_string()));
    assert_eq!(BasicSelector::Class("c".to_string()).inner(), Some("c".to_string()));
    assert_eq!(BasicSelector::Type("p".to_string()).inner(), Some("p".to_string()));
    assert_eq!(BasicSelector::Universal.inner(), None);
    let selector = Selector(((SimpleSelector::new(), vec![]), vec![]));
    assert!(!selector.matches(&Element));
    assert_eq!(selector.specificity(), 0);
}

#[test]
fn boo_reads_borrowed_and_owned_alike() {
    let value = 7u32;
    let borrowed: Boo<u32> = Boo::Borrowed(&value);
    let owned: Boo<u32> = Boo::from(7u32);
    assert_eq!(*borrowed.get_ref(), 7);
    assert_eq!(*owned.get_ref(), 7);
    let from_ref: Boo<u32> = Boo::from(&value);
    assert!(matches!(from_ref, Boo::Borrowed(_)));
    assert_eq!(*from_ref, 7);
    assert_eq!(*owned + 1, 8);
}
