use build_book::error::StructuralError;
use build_book::ingredient::{parse_line, Decimal, Ingredient, IngredientLine, Quantity};
use regex::Regex;

fn number(text: &str) -> Decimal {
    Decimal::parse(text).unwrap()
}

fn value(number: &Decimal) -> f64 {
    number.as_str().parse::<f64>().unwrap()
}

#[test]
fn salt_is_to_taste() {
    let salt = Ingredient::from_str("salt").unwrap();
    assert_eq!(salt.name().text(), "salt");
    assert_eq!(salt.comment(), None);
    assert_eq!(salt.quantity(), &Quantity::ToTaste);
    assert!(salt.quantity().is_to_taste());
    assert!(!salt.optional());
}

#[test]
fn eggs_come_in_a_range() {
    let eggs = Ingredient::from_str("eggs 2-3").unwrap();
    assert_eq!(eggs.name().text(), "eggs");
    assert_eq!(eggs.quantity(), &Quantity::Range { range: (number("2"), number("3")), unit: None });
    match eggs.quantity() {
        Quantity::Range { range, unit } => {
            assert_eq!(value(&range.0), 2.0);
            assert_eq!(value(&range.1), 3.0);
            assert_eq!(unit, &None);
        }
        other => panic!("no range: {:?}", other),
    }
    assert!(!eggs.optional());
}

#[test]
fn flour_has_comment_and_unit() {
    let flour = Ingredient::from_str("flour (sifted) 200g").unwrap();
    assert_eq!(flour.name().text(), "flour");
    assert_eq!(flour.comment().unwrap().text(), "sifted");
    assert_eq!(flour.quantity(), &Quantity::Exact { n: number("200"), unit: Some("g".to_string()) });
    match flour.quantity() {
        Quantity::Exact { n, .. } => assert_eq!(value(n), 200.0),
        other => panic!("no exact quantity: {:?}", other),
    }
    assert!(!flour.optional());
}

#[test]
fn butter_is_optional() {
    let butter = Ingredient::from_str("butter?").unwrap();
    assert_eq!(butter.name().text(), "butter");
    assert!(butter.optional());
    assert_eq!(butter.quantity(), &Quantity::ToTaste);
}

#[test]
fn blank_lines_are_refused() {
    assert_eq!(Ingredient::from_str(""), Err(StructuralError::EmptyIngredientName));
    assert_eq!(Ingredient::from_str("   "), Err(StructuralError::EmptyIngredientName));
    assert_eq!(Ingredient::from_str(" \t\u{a0}\u{3000}\n"), Err(StructuralError::EmptyIngredientName));
    assert_eq!(parse_line(""), Err(StructuralError::EmptyIngredientName));
    assert_eq!(parse_line(" \r\n "), Err(StructuralError::EmptyIngredientName));
}

#[test]
fn ranges_are_kept_as_written() {
    let line = parse_line("milk 3 - 2 l").unwrap();
    assert_eq!(
        line,
        IngredientLine {
            name: "milk".to_string(),
            comment: None,
            optional: false,
            quantity: Quantity::Range { range: (number("3"), number("2")), unit: Some("l".to_string()) },
        }
    );
}

#[test]
fn every_part_at_once() {
    let line = parse_line("  olive oil ( extra  virgin ) ? 1.5 - 2.25 tbsp, cold  ").unwrap();
    assert_eq!(line.name, "olive oil");
    assert_eq!(line.comment, Some("extra  virgin".to_string()));
    assert!(line.optional);
    assert_eq!(
        line.quantity,
        Quantity::Range { range: (number("1.5"), number("2.25")), unit: Some("tbsp, cold".to_string()) }
    );
}

#[test]
fn numbers_without_a_unit() {
    let line = parse_line("water 2").unwrap();
    assert_eq!(line.name, "water");
    assert_eq!(line.quantity, Quantity::Exact { n: number("2"), unit: None });
    let line = parse_line("2 eggs").unwrap();
    assert_eq!(line.name, "2 eggs");
    assert_eq!(line.quantity, Quantity::ToTaste);
}

#[test]
fn shorter_numbers_where_the_line_would_not_end() {
    let line = parse_line("x 1.5 2").unwrap();
    assert_eq!(line.name, "x");
    assert_eq!(line.quantity, Quantity::Exact { n: number("1"), unit: Some(".5 2".to_string()) });
    let line = parse_line("x 1-2 3").unwrap();
    assert_eq!(line.quantity, Quantity::Exact { n: number("1"), unit: Some("-2 3".to_string()) });
    let line = parse_line("x 1-2.5 3").unwrap();
    assert_eq!(
        line.quantity,
        Quantity::Range { range: (number("1"), number("2")), unit: Some(".5 3".to_string()) }
    );
    let line = parse_line("x 1 2").unwrap();
    assert_eq!(line.name, "x 1");
    assert_eq!(line.quantity, Quantity::Exact { n: number("2"), unit: None });
}

#[test]
fn comments_end_at_the_first_parenthesis_that_fits() {
    let line = parse_line("x (a) (b) 2g").unwrap();
    assert_eq!(line.name, "x");
    assert_eq!(line.comment, Some("a) (b".to_string()));
    assert_eq!(line.quantity, Quantity::Exact { n: number("2"), unit: Some("g".to_string()) });
    let line = parse_line("x ( )").unwrap();
    assert_eq!(line.comment, Some(" ".to_string()));
    let line = parse_line("x ()").unwrap();
    assert_eq!(line.name, "x ()");
    assert_eq!(line.comment, None);
}

#[test]
fn non_ascii_text() {
    let line = parse_line("crème fraîche (épaisse)? 20 cl").unwrap();
    assert_eq!(line.name, "crème fraîche");
    assert_eq!(line.comment, Some("épaisse".to_string()));
    assert!(line.optional);
    assert_eq!(line.quantity, Quantity::Exact { n: number("20"), unit: Some("cl".to_string()) });
    let line = parse_line("zucchero 2 è").unwrap();
    assert_eq!(line.name, "zucchero 2 è");
}

#[test]
fn decimals_are_checked() {
    assert!(Decimal::parse("12").is_some());
    assert!(Decimal::parse("12.50").is_some());
    assert_eq!(Decimal::parse("0.5").unwrap().as_str(), "0.5");
    assert!(Decimal::parse("").is_none());
    assert!(Decimal::parse(".5").is_none());
    assert!(Decimal::parse("5.").is_none());
    assert!(Decimal::parse("1.2.3").is_none());
    assert!(Decimal::parse("1e3").is_none());
    assert!(Decimal::parse("-1").is_none());
    assert!(Decimal::parse(" 1").is_none());
}

#[test]
fn default_quantity_is_to_taste() {
    assert_eq!(Quantity::default(), Quantity::ToTaste);
    assert!(Quantity::default().is_to_taste());
    assert!(!Quantity::Exact { n: number("1"), unit: None }.is_to_taste());
}

fn pattern() -> Regex {
    let name_and_comment = r"(?s)^\s*(.+?)\s*(?:\(\s*(.+?)\s*\))?\s*(\?)?\s*";
    let quantity = r"(?:([0-9]+(?:\.[0-9]+)?)(?:\s*\-\s*([0-9]+(?:\.[0-9]+)?))?\s*((?:[[:punct:]]|[[:alpha:]]).*?)?)?\s*$";
    Regex::new(&format!("{}{}", name_and_comment, quantity)).unwrap()
}

fn by_pattern(pattern: &Regex, line: &str) -> Option<(String, Option<String>, bool, Vec<String>, Option<String>)> {
    let found = pattern.captures(line)?;
    let text = |i: usize| found.get(i).map(|m| m.as_str().to_string());
    let name = text(1).unwrap();
    if name.trim().is_empty() {
        return None;
    }
    let numbers: Vec<String> = [text(4), text(5)].into_iter().flatten().collect();
    Some((name, text(2), text(3).is_some(), numbers, text(6)))
}

fn by_library(line: &str) -> Option<(String, Option<String>, bool, Vec<String>, Option<String>)> {
    let read = parse_line(line).ok()?;
    let (numbers, unit) = match read.quantity {
        Quantity::ToTaste => (vec![], None),
        Quantity::Exact { n, unit } => (vec![n.as_str().to_string()], unit),
        Quantity::Range { range, unit } => (vec![range.0.as_str().to_string(), range.1.as_str().to_string()], unit),
    };
    Some((read.name, read.comment, read.optional, numbers, unit))
}

fn compare_all(alphabet: &[char], first: Option<char>, longest: usize) {
    let pattern = pattern();
    let mut lines: Vec<String> = match first {
        Some(c) => vec![c.to_string()],
        None => vec![String::new()],
    };
    let mut length = lines[0].chars().count();
    loop {
        for line in &lines {
            assert_eq!(by_library(line), by_pattern(&pattern, line), "on {:?}", line);
        }
        if length == longest {
            break;
        }
        let mut longer = Vec::new();
        for line in &lines {
            for c in alphabet {
                let mut next = line.clone();
                next.push(*c);
                longer.push(next);
            }
        }
        lines = longer;
        length += 1;
    }
}

#[test]
fn short_lines_read_as_the_pattern_does() {
    compare_all(&['a', ' ', '(', ')', '?', '1', '.', '-'], None, 5);
}

#[test]
fn lines_of_spaces_and_marks_read_as_the_pattern_does() {
    compare_all(&[' ', '(', ')', '?', '1', '-'], Some('a'), 7);
}

#[test]
fn lines_of_numbers_read_as_the_pattern_does() {
    compare_all(&['1', '.', '-', ' ', 'g'], Some('a'), 8);
}

#[test]
fn lines_with_other_white_space_read_as_the_pattern_does() {
    compare_all(&['\u{a0}', '\t', '\n', 'é', '2', '(', ')', '?'], None, 5);
}

#[test]
fn character_classes_are_those_of_the_standard_library() {
    for code in 0..=0x10ffff_u32 {
        if let Some(c) = char::from_u32(code) {
            assert_eq!(build_book::ingredient::is_space_char(c), c.is_whitespace(), "space {:?}", c);
            assert_eq!(build_book::ingredient::is_digit_char(c), c.is_ascii_digit(), "digit {:?}", c);
            assert_eq!(
                build_book::ingredient::is_unit_start_char(c),
                c.is_ascii_punctuation() || c.is_ascii_alphabetic(),
                "unit {:?}",
                c
            );
        }
    }
}

#[test]
fn characters_of_a_text() {
    assert_eq!(build_book::ingredient::chars_of("aé\u{1f600}b"), vec!['a', 'é', '\u{1f600}', 'b']);
    assert_eq!(build_book::ingredient::chars_of(""), Vec::<char>::new());
}

#[test]
fn ingredients_from_their_parts() {
    let line = parse_line("sugar (brown)? 2 - 3 spoons").unwrap();
    let ingredient = Ingredient::from_line(line).unwrap();
    assert_eq!(ingredient, Ingredient::from_str("sugar (brown)? 2 - 3 spoons").unwrap());
    assert_eq!(ingredient.name().text(), "sugar");
    assert_eq!(ingredient.comment().unwrap().text(), "brown");
    assert!(ingredient.optional());
    let name = build_book::parsers::Markdown::from_str("*sugar*").unwrap();
    let built = Ingredient::new(name, None, Quantity::Exact { n: number("1"), unit: None }, true);
    assert_eq!(built.name().text(), "sugar");
    assert_eq!(built.comment(), None);
    assert_eq!(built.quantity(), &Quantity::Exact { n: number("1"), unit: None });
    assert!(built.optional());
}

#[test]
fn names_may_hold_markup() {
    let oil = Ingredient::from_str("**olive** oil (see [notes](#notes)) 2 tbsp").unwrap();
    assert_eq!(oil.name().text(), "olive oil");
    assert_eq!(oil.comment().unwrap().text(), "see notes");
}
