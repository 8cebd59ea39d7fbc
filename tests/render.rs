use recipe_transpiler::{parse, render, transpile, Instruction, ParseError, ParseErrorKind, Recipe};

#[test]
fn render_leaf() {
    let r = Recipe { base: "水".to_string(), instructions: vec![] };
    assert_eq!(render(&r), "水\n完成！");
}

#[test]
fn render_steps_and_ingredients() {
    let r = parse("aaa > bbb > ? + (ccc > ddd > + (eee))").unwrap();
    assert_eq!(
        render(&r),
        "aaa　に\n「bbb」　をして\nお好みで　「ccc　を　「ddd」　して　「eee　を加える」　して加える」　をして\n完成！"
    );
}

#[test]
fn render_plain_ingredient() {
    let r = Recipe {
        base: "a".to_string(),
        instructions: vec![Instruction::AddIngredients {
            recipe: Recipe { base: "b".to_string(), instructions: vec![] },
            optional: false,
        }],
    };
    assert_eq!(render(&r), "a　に\n「b　を加える」　をして\n完成！");
}

#[test]
fn render_is_stable() {
    let r = parse("x > y").unwrap();
    assert_eq!(render(&r), render(&r));
    assert_eq!(render(&r), "x　に\n「y」　をして\n完成！");
}

#[test]
fn transpile_success() {
    assert_eq!(transpile("a > b"), Ok("a　に\n「b」　をして\n完成！".to_string()));
}

#[test]
fn transpile_failure() {
    assert_eq!(
        transpile("a > b >"),
        Err(ParseError { position: 6, kind: ParseErrorKind::TrailingInput })
    );
}

#[test]
fn closing_phrase_once_at_end() {
    let out = transpile("a > b > + (c > d) > ? + e").unwrap();
    assert!(out.ends_with("\n完成！"));
    assert_eq!(out.matches("完成！").count(), 1);
}

#[test]
fn closing_phrase_inside_text_is_kept() {
    let out = transpile("完成！").unwrap();
    assert_eq!(out, "完成！\n完成！");
}

#[test]
fn render_ideographic_text_verbatim() {
    let r = parse("ご飯 > 炊く").unwrap();
    assert_eq!(render(&r), "ご飯　に\n「炊く」　をして\n完成！");
}
