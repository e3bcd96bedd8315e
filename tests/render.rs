use template_subst::parser::{parse_chars, RenderNode};
use template_subst::scanner::{scan_token, Token};
use template_subst::{
    parse, render, substitute_variables, RenderError, SyntaxError, TemplateError,
    VariableContext,
};

fn ctx_of(pairs: &[(&str, &str)]) -> VariableContext {
    let mut ctx = VariableContext::new();
    for (k, v) in pairs {
        ctx.insert(k.to_string(), v.to_string());
    }
    ctx
}

fn undefined(name: &str, offset: usize) -> TemplateError {
    TemplateError::Render(RenderError::UndefinedVariable { name: name.to_string(), offset })
}

#[test]
fn literal_text_is_unchanged() {
    let text = "No markers here { } }} {x}";
    let empty = VariableContext::new();
    let full = ctx_of(&[("x", "1"), ("here", "there")]);
    assert_eq!(substitute_variables(text, &empty), Ok(text.to_string()));
    assert_eq!(substitute_variables(text, &full), Ok(text.to_string()));
}

#[test]
fn empty_template_renders_empty() {
    assert_eq!(substitute_variables("", &VariableContext::new()), Ok(String::new()));
}

#[test]
fn literal_render_is_repeatable() {
    let text = "same text, twice";
    let a = substitute_variables(text, &VariableContext::new());
    let b = substitute_variables(text, &ctx_of(&[("k", "v")]));
    assert_eq!(a, b);
    assert_eq!(a, Ok(text.to_string()));
}

#[test]
fn single_placeholder_gives_value() {
    let ctx = ctx_of(&[("name", "World")]);
    assert_eq!(substitute_variables("{{name}}", &ctx), Ok("World".to_string()));
    assert_eq!(substitute_variables("{{  name\t}}", &ctx), Ok("World".to_string()));
}

#[test]
fn missing_name_fails_without_output() {
    let r = substitute_variables("Hello {{user}}!", &VariableContext::new());
    assert_eq!(r, Err(undefined("user", 6)));
}

#[test]
fn first_missing_name_is_reported() {
    let ctx = ctx_of(&[("a", "1")]);
    let r = substitute_variables("{{a}}{{b}}{{c}}", &ctx);
    assert_eq!(r, Err(undefined("b", 5)));
}

#[test]
fn substitution_follows_positions() {
    let ctx = ctx_of(&[("a", "1"), ("b", "2")]);
    assert_eq!(substitute_variables("{{a}}-{{b}}", &ctx), Ok("1-2".to_string()));
    let swapped = ctx_of(&[("a", "2"), ("b", "1")]);
    assert_eq!(substitute_variables("{{a}}-{{b}}", &swapped), Ok("2-1".to_string()));
}

#[test]
fn blank_placeholder_is_a_syntax_error() {
    let expected = Err(TemplateError::Syntax(SyntaxError::EmptyPlaceholder { offset: 0 }));
    assert_eq!(substitute_variables("{{ }}", &VariableContext::new()), expected);
    assert_eq!(substitute_variables("{{ }}", &ctx_of(&[(" ", "x"), ("", "y")])), expected);
    assert_eq!(substitute_variables("{{}}", &VariableContext::new()), expected);
}

#[test]
fn unterminated_marker_reports_its_offset() {
    let r = substitute_variables("Hi {{name", &ctx_of(&[("name", "x")]));
    assert_eq!(
        r,
        Err(TemplateError::Syntax(SyntaxError::UnterminatedPlaceholder { offset: 3 }))
    );
}

#[test]
fn delimiter_in_name_is_rejected() {
    let r = substitute_variables("x {{ a}b }}", &ctx_of(&[("a}b", "v")]));
    assert_eq!(r, Err(TemplateError::Syntax(SyntaxError::InvalidPlaceholder { offset: 2 })));
    let r = parse("{{{a}}}");
    assert_eq!(r.err(), Some(SyntaxError::InvalidPlaceholder { offset: 0 }));
}

#[test]
fn syntax_error_comes_before_lookup() {
    let r = substitute_variables("{{missing}} {{ }}", &VariableContext::new());
    assert_eq!(r, Err(TemplateError::Syntax(SyntaxError::EmptyPlaceholder { offset: 12 })));
}

#[test]
fn values_are_inserted_raw() {
    let ctx = ctx_of(&[("v", "<b>&\"{{x}}\"")]);
    assert_eq!(substitute_variables("[{{v}}]", &ctx), Ok("[<b>&\"{{x}}\"]".to_string()));
}

#[test]
fn offsets_count_characters() {
    let r = substitute_variables("héllo {{x}}", &VariableContext::new());
    assert_eq!(r, Err(undefined("x", 6)));
    let ctx = ctx_of(&[("x", "ü")]);
    assert_eq!(substitute_variables("héllo {{x}}", &ctx), Ok("héllo ü".to_string()));
}

#[test]
fn names_are_case_sensitive() {
    let ctx = ctx_of(&[("Name", "A")]);
    assert_eq!(substitute_variables("{{name}}", &ctx), Err(undefined("name", 0)));
}

#[test]
fn parse_builds_nodes() {
    let t = parse("Hi {{ name }}!").unwrap();
    let expected = vec![
        RenderNode::Literal("Hi ".to_string()),
        RenderNode::VariableRef { name: "name".to_string(), offset: 3 },
        RenderNode::Literal("!".to_string()),
    ];
    assert_eq!(t.nodes(), &expected);
    assert_eq!(t.len(), 3);
    let chars: Vec<char> = "a{{b}}".chars().collect();
    assert_eq!(parse_chars(&chars).unwrap().len(), 2);
}

#[test]
fn render_uses_parsed_template() {
    let t = parse("{{x}}+{{x}}").unwrap();
    assert_eq!(render(&t, &ctx_of(&[("x", "7")])), Ok("7+7".to_string()));
    assert_eq!(
        render(&t, &VariableContext::new()),
        Err(RenderError::UndefinedVariable { name: "x".to_string(), offset: 0 })
    );
}

#[test]
fn scanner_tokens() {
    let v: Vec<char> = "ab{{c}}d{{".chars().collect();
    assert_eq!(scan_token(&v, 0), Ok(Token::Text { start: 0, end: 2 }));
    assert_eq!(scan_token(&v, 2), Ok(Token::Placeholder { open: 2, close: 5 }));
    assert_eq!(scan_token(&v, 7), Ok(Token::Text { start: 7, end: 8 }));
    assert_eq!(scan_token(&v, 8), Err(SyntaxError::UnterminatedPlaceholder { offset: 8 }));
}

#[test]
fn context_insert_replaces() {
    let mut ctx = VariableContext::new();
    ctx.insert("a".to_string(), "1".to_string());
    ctx.insert("b".to_string(), "x".to_string());
    ctx.insert("a".to_string(), "2".to_string());
    assert_eq!(ctx.get(&"a".to_string()), Some(&"2".to_string()));
    assert_eq!(ctx.get(&"c".to_string()), None);
    assert!(ctx.contains_key(&"b".to_string()));
    assert!(!ctx.contains_key(&"B".to_string()));
    assert_eq!(substitute_variables("{{a}}{{b}}", &ctx), Ok("2x".to_string()));
}
