use recipe_transpiler::{parse, Instruction, ParseError, ParseErrorKind, Recipe};

fn leaf(base: &str) -> Recipe {
    Recipe { base: base.to_string(), instructions: vec![] }
}

fn process(t: &str) -> Instruction {
    Instruction::Process(t.to_string())
}

fn add(recipe: Recipe, optional: bool) -> Instruction {
    Instruction::AddIngredients { recipe, optional }
}

#[test]
fn test() {
    assert_eq!(
        parse(
            r#"  # コメント
aaa > bbb # コメント
> + (#
    ccc>ddd>+( eee )
# コメント
) > ? + (
    fff>ggg
)
# コメント"#
        ),
        Ok(Recipe {
            base: "aaa".to_string(),
            instructions: vec![
                Instruction::Process("bbb".to_string()),
                Instruction::AddIngredients {
                    recipe: Recipe {
                        base: "ccc".to_string(),
                        instructions: vec![
                            Instruction::Process("ddd".to_string()),
                            Instruction::AddIngredients {
                                recipe: Recipe { base: "eee".to_string(), instructions: vec![] },
                                optional: false
                            }
                        ]
                    },
                    optional: false
                },
                Instruction::AddIngredients {
                    recipe: Recipe {
                        base: "fff".to_string(),
                        instructions: vec![Instruction::Process("ggg".to_string())]
                    },
                    optional: true
                }
            ],
        })
    );
}

#[test]
fn base_only_is_trimmed() {
    assert_eq!(parse("  tomato soup \t"), Ok(leaf("tomato soup")));
}

#[test]
fn ideographic_space_is_trimmed() {
    assert_eq!(parse("\u{3000}卵\u{3000}"), Ok(leaf("卵")));
}

#[test]
fn inline_ingredient_after_process() {
    assert_eq!(
        parse("aaa > bbb\n> + ccc"),
        Ok(Recipe {
            base: "aaa".to_string(),
            instructions: vec![process("bbb"), add(leaf("ccc"), false)],
        })
    );
}

#[test]
fn optional_nested_ingredient() {
    assert_eq!(
        parse("x > ? + (y > z)"),
        Ok(Recipe {
            base: "x".to_string(),
            instructions: vec![add(
                Recipe { base: "y".to_string(), instructions: vec![process("z")] },
                true
            )],
        })
    );
}

#[test]
fn deeper_nesting() {
    assert_eq!(
        parse("a > +(b > +(c > d))"),
        Ok(Recipe {
            base: "a".to_string(),
            instructions: vec![add(
                Recipe {
                    base: "b".to_string(),
                    instructions: vec![add(
                        Recipe { base: "c".to_string(), instructions: vec![process("d")] },
                        false
                    )],
                },
                false
            )],
        })
    );
}

#[test]
fn inline_name_keeps_parenthesis() {
    assert_eq!(
        parse("a > + b)"),
        Ok(Recipe { base: "a".to_string(), instructions: vec![add(leaf("b)"), false)] })
    );
}

#[test]
fn question_mark_without_plus_is_process_text() {
    assert_eq!(
        parse("x > ? y"),
        Ok(Recipe { base: "x".to_string(), instructions: vec![process("? y")] })
    );
}

#[test]
fn empty_list_after_arrow_fails() {
    assert_eq!(
        parse("aaa >"),
        Err(ParseError { position: 4, kind: ParseErrorKind::TrailingInput })
    );
}

#[test]
fn empty_list_after_arrow_with_comment_fails() {
    assert_eq!(
        parse("aaa > # nothing\n"),
        Err(ParseError { position: 4, kind: ParseErrorKind::TrailingInput })
    );
}

#[test]
fn trailing_text_fails() {
    assert_eq!(
        parse("aaa > bbb ) ccc"),
        Err(ParseError { position: 10, kind: ParseErrorKind::TrailingInput })
    );
}

#[test]
fn empty_input_fails() {
    assert_eq!(
        parse("  # only a comment\n"),
        Err(ParseError { position: 19, kind: ParseErrorKind::MissingRecipe })
    );
}

#[test]
fn comments_and_blank_lines_are_skipped() {
    assert_eq!(
        parse("# one\n# two\n\naaa # three\n# four\n> bbb"),
        Ok(Recipe { base: "aaa".to_string(), instructions: vec![process("bbb")] })
    );
}

#[test]
fn unclosed_parenthesis_falls_back_to_inline_name() {
    assert_eq!(
        parse("a > + ( b"),
        Ok(Recipe { base: "a".to_string(), instructions: vec![add(leaf("( b"), false)] })
    );
}

#[test]
fn inline_name_swallows_closing_parenthesis() {
    assert_eq!(
        parse("a > ? + (b > + c)"),
        Ok(Recipe {
            base: "a".to_string(),
            instructions: vec![add(leaf("(b"), true), add(leaf("c)"), false)],
        })
    );
}

#[test]
fn leading_whitespace_and_comment_lines_change_nothing() {
    let plain = parse("a > + (b > c)");
    assert_eq!(parse(" \t\n a > + (b > c)"), plain);
    assert_eq!(parse("# note\na > + (b > c)"), plain);
    assert_eq!(parse("# one\n  # two\n\na > + (b > c)"), plain);
}

#[test]
fn whitespace_and_comments_between_tokens_change_nothing() {
    let plain = parse("a>?+(b>c)>d");
    assert_eq!(parse("a > ? + ( b > c ) > d"), plain);
    assert_eq!(parse("a # x\n> ? # y\n + # z\n ( b\n > c # w\n ) > d # end"), plain);
}

#[test]
fn optional_flag_follows_question_mark() {
    assert_eq!(
        parse("a > ? + b > + c"),
        Ok(Recipe {
            base: "a".to_string(),
            instructions: vec![add(leaf("b"), true), add(leaf("c"), false)],
        })
    );
}

#[test]
fn plus_without_source_is_process_text() {
    assert_eq!(
        parse("a > +"),
        Ok(Recipe { base: "a".to_string(), instructions: vec![process("+")] })
    );
}

#[test]
fn base_keeps_inner_whitespace() {
    assert_eq!(parse("  red  bean\tpaste  "), Ok(leaf("red  bean\tpaste")));
}

#[test]
fn unclosed_parenthesis_is_plain_text() {
    assert_eq!(
        parse("a > + (b > c"),
        Ok(Recipe { base: "a".to_string(), instructions: vec![add(leaf("(b"), false), process("c")] })
    );
    assert_eq!(
        parse("a > ( b"),
        Ok(Recipe { base: "a".to_string(), instructions: vec![process("( b")] })
    );
}

#[test]
fn blank_inserted_after_arrow_and_plus_changes_nothing() {
    let plain = parse("a>+(b>c)");
    assert_eq!(parse("a>  # after arrow\n+\t# after plus\n(b>c)"), plain);
}

#[test]
fn comment_at_end_without_newline() {
    assert_eq!(parse("a > b # last"), Ok(Recipe { base: "a".to_string(), instructions: vec![process("b")] }));
}
