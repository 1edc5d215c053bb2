use bracket::escape::Escape;
use bracket::helper::{BlockHelper, BlockKind, HelperPlan, NoHelper, ValueHelper};
use bracket::json::Json;
use bracket::parser::ParserOptions;
use bracket::registry::{Escaper, Registry};
use bracket::render::{Context, Scope};

fn object(entries: Vec<(&str, Json)>) -> Json {
    Json::Object(entries.into_iter().map(|(k, v)| (k.to_string(), v)).collect())
}

fn string(s: &str) -> Json {
    Json::String(s.to_string())
}

fn number(s: &str) -> Json {
    Json::Number(s.to_string())
}

fn render(source: &str, data: &Json) -> String {
    let registry: Registry = Registry::new();
    registry.once("render", source, data).unwrap()
}

fn people() -> Json {
    object(vec![
        ("title", string("Staff & <friends>")),
        (
            "people",
            Json::Array(vec![
                object(vec![("name", string("Ada")), ("age", number("36"))]),
                object(vec![("name", string("Alan")), ("age", number("41"))]),
            ]),
        ),
        ("empty", Json::Array(vec![])),
        ("count", number("0")),
        ("ratio", number("1.5")),
        ("yes", Json::Bool(true)),
        ("no", Json::Bool(false)),
        ("nothing", Json::Null),
        ("nested", object(vec![("deep", object(vec![("key", string("found"))]))])),
        ("with-dash", string("dashed")),
    ])
}

#[test]
fn scalars_are_written_as_text() {
    let data = people();
    assert_eq!("0", render("{{count}}", &data));
    assert_eq!("1.5", render("{{ratio}}", &data));
    assert_eq!("true false", render("{{yes}} {{no}}", &data));
    assert_eq!("[]", render("[{{nothing}}]", &data));
    assert_eq!("[]", render("[{{missing}}]", &data));
    assert_eq!("dashed", render("{{with-dash}}", &data));
}

#[test]
fn arrays_and_objects_are_written_as_json() {
    let data = object(vec![
        ("list", Json::Array(vec![number("1"), string("a\"b"), Json::Null])),
        ("map", object(vec![("b", Json::Bool(true)), ("a", number("2.5"))])),
    ]);
    assert_eq!("[1,\"a\\\"b\",null]", render("{{{list}}}", &data));
    assert_eq!("{\"a\":2.5,\"b\":true}", render("{{{map}}}", &data));
    assert_eq!("[1,&quot;a\\&quot;b&quot;,null]", render("{{list}}", &data));
}

#[test]
fn escaping_replaces_six_characters() {
    let data = object(vec![("x", string("&<>\"'`="))]);
    assert_eq!("&amp;&lt;&gt;&quot;&#x27;&#x60;=", render("{{x}}", &data));
    assert_eq!("&<>\"'`=", render("{{{x}}}", &data));
    assert_eq!("Staff &amp; &lt;friends&gt;", render("{{title}}", &people()));
}

#[test]
fn paths_navigate_the_data() {
    let data = people();
    assert_eq!("found", render("{{nested.deep.key}}", &data));
    assert_eq!("found", render("{{nested/deep/key}}", &data));
    assert_eq!("found", render("{{this.nested.deep.key}}", &data));
    assert_eq!("found", render("{{./nested.deep.key}}", &data));
    assert_eq!("found", render("{{@root.nested.deep.key}}", &data));
    assert_eq!("Ada", render("{{people.[0].name}}", &data));
    assert_eq!("Ada", render("{{lookup (lookup people \"0\") \"name\"}}", &data));
    assert_eq!("Alan", render("{{people.[1].name}}", &data));
    assert_eq!("found", render("{{nested.['deep'].[\"key\"]}}", &data));
    assert_eq!("", render("{{people.[7].name}}", &data));
    assert_eq!("", render("{{nested.nope.key}}", &data));
}

#[test]
fn each_over_arrays_and_objects() {
    let data = people();
    assert_eq!(
        "0 Ada (36) first;1 Alan (41) last;",
        render(
            "{{#each people}}{{@index}} {{name}} ({{age}}){{#if @first}} first{{/if}}{{#if @last}} last{{/if}};{{/each}}",
            &data
        )
    );
    assert_eq!("", render("{{#each empty}}x{{/each}}", &data));
    assert_eq!("", render("{{#each count}}x{{/each}}", &data));
    let map = object(vec![("m", object(vec![("a", number("1")), ("b", number("2"))]))]);
    assert_eq!(
        "a=1@0 b=2@1 ",
        render("{{#each m}}{{@key}}={{this}}@{{@index}} {{/each}}", &map)
    );
}

#[test]
fn parents_and_fallback_to_the_data() {
    let data = people();
    assert_eq!(
        "Ada of Staff & <friends>;Alan of Staff & <friends>;",
        render("{{#each people}}{{name}} of {{{../title}}};{{/each}}", &data)
    );
    assert_eq!(
        "Ada/Staff & <friends>;Alan/Staff & <friends>;",
        render("{{#each people}}{{name}}/{{{title}}};{{/each}}", &data)
    );
    assert_eq!(
        "[];[];",
        render("{{#each people}}[{{this.title}}];{{/each}}", &data)
    );
    assert_eq!(
        "found",
        render("{{#with nested}}{{#with deep}}{{../../nested.deep.key}}{{/with}}{{/with}}", &data)
    );
    assert_eq!(
        "Ada:Ada Ada:Alan Alan:Ada Alan:Alan ",
        render(
            "{{#each people}}{{#each ../people}}{{../name}}:{{name}} {{/each}}{{/each}}",
            &data
        )
    );
}

#[test]
fn conditionals_go_by_truthiness() {
    let data = people();
    assert_eq!("y", render("{{#if yes}}y{{/if}}{{#if no}}n{{/if}}", &data));
    assert_eq!("n", render("{{#unless yes}}y{{/unless}}{{#unless no}}n{{/unless}}", &data));
    assert_eq!("", render("{{#if count}}x{{/if}}", &data));
    assert_eq!("x", render("{{#if ratio}}x{{/if}}", &data));
    assert_eq!("", render("{{#if nothing}}x{{/if}}", &data));
    assert_eq!("", render("{{#if missing}}x{{/if}}", &data));
    assert_eq!("x", render("{{#if title}}x{{/if}}", &data));
    assert_eq!("x", render("{{#if empty}}x{{/if}}", &data));
    assert_eq!("Staff", render("{{#if yes}}{{#with nested}}Staff{{/with}}{{/if}}", &data));
}

#[test]
fn truthiness_of_numbers() {
    assert_eq!(false, number("0").is_truthy());
    assert_eq!(false, number("-0").is_truthy());
    assert_eq!(false, number("0.0").is_truthy());
    assert_eq!(false, number("0e5").is_truthy());
    assert_eq!(true, number("0.01").is_truthy());
    assert_eq!(true, number("10").is_truthy());
    assert_eq!(true, number("-3").is_truthy());
    assert_eq!(true, number("1e0").is_truthy());
    assert_eq!(false, string("").is_truthy());
    assert_eq!(true, string("0").is_truthy());
    assert_eq!(false, Json::Null.is_truthy());
    assert_eq!(true, Json::Array(vec![]).is_truthy());
    assert_eq!(true, Json::Object(vec![]).is_truthy());
}

#[test]
fn blocks_without_a_helper() {
    let data = people();
    assert_eq!("Ada;Alan;", render("{{#people}}{{name}};{{/people}}", &data));
    assert_eq!("found", render("{{#nested}}{{deep.key}}{{/nested}}", &data));
    assert_eq!("x", render("{{#yes}}x{{/yes}}", &data));
    assert_eq!("", render("{{#no}}x{{/no}}", &data));
    assert_eq!("", render("{{#missing}}x{{/missing}}", &data));
}

#[test]
fn built_in_value_helpers() {
    let data = people();
    assert_eq!("found", render("{{lookup nested.deep \"key\"}}", &data));
    assert_eq!("Alan", render("{{lookup (lookup people \"1\") \"name\"}}", &data));
    assert_eq!("", render("{{lookup nested \"nope\"}}", &data));
    assert_eq!("true", render("{{and yes title}}", &data));
    assert_eq!("false", render("{{and yes no}}", &data));
    assert_eq!("true", render("{{or no yes}}", &data));
    assert_eq!("false", render("{{or no count}}", &data));
    assert_eq!("true", render("{{not no}}", &data));
    assert_eq!("false", render("{{not yes}}", &data));
    assert_eq!("", render("{{log \"a message\" title}}", &data));
    assert_eq!("{\"key\":\"found\"}", render("{{{json nested.deep}}}", &data));
    assert_eq!("y", render("{{#if (and yes (not no))}}y{{/if}}", &data));
}

#[test]
fn literal_arguments() {
    let data = Json::Null;
    assert_eq!("1.5", render("{{{json 1.50}}}", &data));
    assert_eq!("100.0", render("{{{json 1e2}}}", &data));
    assert_eq!("-7", render("{{{json -7}}}", &data));
    assert_eq!("true", render("{{{json true}}}", &data));
    assert_eq!("false", render("{{{json false}}}", &data));
    assert_eq!("null", render("{{{json null}}}", &data));
    assert_eq!("\"a b\"", render("{{{json \"a b\"}}}", &data));
    assert_eq!("\"it's\"", render("{{{json 'it\\'s'}}}", &data));
    assert_eq!("\"a\\nb\\tc\\\\d\\\"e\"", render("{{{json \"a\\nb\\tc\\\\d\\\"e\"}}}", &data));
    assert_eq!("\"grüße\"", render("{{{json \"grüße\"}}}", &data));
}

#[test]
fn whitespace_is_trimmed_where_asked() {
    let data = object(vec![("name", string("X")), ("list", Json::Array(vec![number("1"), number("2")]))]);
    assert_eq!("  X  ", render("  {{name}}  ", &data));
    assert_eq!("X  ", render("  {{~name}}  ", &data));
    assert_eq!("  X", render("  {{name~}}  ", &data));
    assert_eq!("X", render("  {{~name~}}  ", &data));
    assert_eq!("<1><2>", render("{{#each list~}}  <{{this}}>  {{~/each}}", &data));
    assert_eq!("<1>  <2>  ", render("{{#each list~}}  <{{this}}>  {{/each}}", &data));
    assert_eq!("[12]", render("[  {{~#each list}}{{this}}{{/each~}}  ]", &data));
    assert_eq!("a  b", render("a {{{{~raw~}}}} {{{{/raw}}}} b", &data));
}

#[test]
fn comments_and_raw_text() {
    let data = object(vec![("x", string("y"))]);
    assert_eq!("ab", render("a{{! a comment }}b", &data));
    assert_eq!("ab", render("a{{!-- a {{raw}} comment --}}b", &data));
    assert_eq!("a{{x}}b", render("a\\{{x}}b", &data));
    assert_eq!("a {{x}} {{{y}}} b", render("a{{{{raw}}}} {{x}} {{{y}}} {{{{/raw}}}}b", &data));
    assert_eq!("line\n{{x}}\n", render("{{{{raw}}}}line\n{{x}}\n{{{{/raw}}}}", &data));
    assert_eq!("a \\ b", render("a \\ b", &data));
}

#[test]
fn partials_render_registered_templates() {
    let mut registry: Registry = Registry::new();
    registry
        .register_template_string("row", "<{{name}}>", ParserOptions::default())
        .unwrap();
    registry
        .register_template_string(
            "list",
            "{{#each people}}{{> row}}{{/each}}",
            ParserOptions::default(),
        )
        .unwrap();
    registry
        .register_template_string("named", "{{> (lookup this \"which\")}}", ParserOptions::default())
        .unwrap();
    let data = people();
    assert_eq!("<Ada><Alan>", registry.render("list", &data).unwrap());
    let data = object(vec![("which", string("row")), ("name", string("Eve"))]);
    assert_eq!("<Eve>", registry.render("named", &data).unwrap());
}

struct Twice;

impl BlockHelper for Twice {
    fn call(&self, ctx: &Context) -> HelperPlan {
        let mut first = Scope::new();
        first.set_local("n", Json::Number("1".to_string()));
        let mut second = Scope::new();
        second.set_local("n", Json::Number("2".to_string()));
        if let Some((key, value)) = ctx.hash().get(0) {
            first.set_local(key, Json::String("?".to_string()));
            second.set_local(key, value.copy());
        }
        Ok(vec![first, second])
    }
}

#[test]
fn block_helpers_of_the_registry() {
    let mut registry: Registry<NoHelper, Twice> = Registry::new();
    registry.register_block_helper("twice", BlockKind::Custom(Twice));
    let data = object(vec![("x", string("y"))]);
    assert_eq!(
        Ok("1y? 2y! ".to_string()),
        registry.once("twice", "{{#twice more=\"!\"}}{{@n}}{{x}}{{@more}} {{/twice}}", &data)
    );
}

#[test]
fn helpers_can_be_replaced_and_removed() {
    let mut registry: Registry = Registry::new();
    assert_eq!(true, registry.get_helper("json").is_some());
    assert_eq!(true, registry.get_block_helper("each").is_some());
    assert_eq!(true, registry.get_helper("nope").is_none());
    registry.helpers.insert("truth", ValueHelper::Not);
    let data = object(vec![("no", Json::Bool(false))]);
    assert_eq!("true", registry.once("t", "{{truth no}}", &data).unwrap());
    registry.helpers.insert("truth", ValueHelper::Or);
    assert_eq!("false", registry.once("t", "{{truth no no}}", &data).unwrap());
    assert_eq!(true, matches!(registry.helpers.remove("truth"), Some(ValueHelper::Or)));
    assert_eq!(true, registry.helpers.remove("truth").is_none());
    assert_eq!("", registry.once("t", "{{truth no no}}", &data).unwrap());
    assert_eq!(true, matches!(registry.escape(), Escaper::Html));
}

struct Shout;

impl Escape for Shout {
    fn escape(&self, s: &[u8]) -> Vec<u8> {
        s.to_ascii_uppercase()
    }
}

#[test]
fn escape_function_of_the_registry() {
    let mut registry: Registry<NoHelper, NoHelper, Shout> = Registry::new();
    let data = object(vec![("x", string("<a>"))]);
    assert_eq!("&lt;a&gt; <a>", registry.once("t", "{{x}} {{{x}}}", &data).unwrap());
    registry.set_escape(Shout);
    assert_eq!("<A> <a>", registry.once("t", "{{x}} {{{x}}}", &data).unwrap());
}

#[test]
fn templates_can_be_registered_and_unregistered() {
    let mut registry: Registry = Registry::new();
    registry
        .register_template_string("a", "first", ParserOptions::default())
        .unwrap();
    registry
        .register_template_string("b", "second", ParserOptions::default())
        .unwrap();
    assert_eq!("first", registry.render("a", &Json::Null).unwrap());
    registry
        .register_template_string("a", "third", ParserOptions::default())
        .unwrap();
    assert_eq!("third", registry.render("a", &Json::Null).unwrap());
    assert_eq!(2, registry.templates().len());
    let removed = registry.unregister_template("a").unwrap();
    assert_eq!("third".as_bytes(), removed.source());
    assert_eq!(true, registry.unregister_template("a").is_none());
    assert_eq!("second", registry.render("b", &Json::Null).unwrap());
    assert_eq!(true, registry.get_template("b").is_ok());
    let mut out = b"> ".to_vec();
    registry.render_to_write("b", &Json::Null, &mut out).unwrap();
    assert_eq!(b"> second".to_vec(), out);
}
