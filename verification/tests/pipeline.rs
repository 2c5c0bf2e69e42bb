use typify_gostruct::interpreter::TransformTo;
use typify_gostruct::transform;

#[test]
fn plain_fields_render_in_order_with_mapped_types() {
    let src = "type Region struct {\nCountry string\nState int\nOk bool\n}";
    let out = transform(src, TransformTo::Typescript).unwrap();
    assert_eq!(
        out,
        "export interface Region { Country: string; State: number; Ok: boolean; }\n"
    );
}

#[test]
fn plain_fields_render_in_order_flow() {
    let src = "type Region struct {\nCountry string\nState int\nOk bool\n}";
    let out = transform(src, TransformTo::Flow).unwrap();
    assert_eq!(
        out,
        "export type Region = { Country: string; State: number; Ok: boolean; };\n"
    );
}

#[test]
fn json_tag_renames_field() {
    let src = "type Region struct {\nCountry string `json:\"country\"`\n}";
    let out = transform(src, TransformTo::Typescript).unwrap();
    assert_eq!(out, "export interface Region { country: string; }\n");
}

#[test]
fn json_tag_renames_field_flow() {
    let src = "type Region struct {\nCountry string `json:\"country\"`\n}";
    let out = transform(src, TransformTo::Flow).unwrap();
    assert_eq!(out, "export type Region = { country: string; };\n");
}

#[test]
fn json_dash_drops_field_and_keeps_siblings() {
    let src = "type Region struct {\nCountry string `json:\"-\"`\nState string\n}";
    let out = transform(src, TransformTo::Typescript).unwrap();
    assert_eq!(out, "export interface Region { State: string; }\n");
}

#[test]
fn json_dash_between_siblings_keeps_order() {
    let src = "type R struct {\nA int\nB int `json:\"-\"`\nC int\n}";
    let out = transform(src, TransformTo::Typescript).unwrap();
    assert_eq!(out, "export interface R { A: number; C: number; }\n");
}

#[test]
fn list_fields_render_as_arrays() {
    let src = "type Box struct {\nTags []string\nItems []Foo\n}";
    let out = transform(src, TransformTo::Typescript).unwrap();
    assert_eq!(out, "export interface Box { Tags: string[]; Items: Foo[]; }\n");
}

#[test]
fn list_field_with_json_tag() {
    let src = "type Box struct {\nItems []Foo `json:\"items\"`\n}";
    let out = transform(src, TransformTo::Typescript).unwrap();
    assert_eq!(out, "export interface Box { items: Foo[]; }\n");
}

#[test]
fn embedded_field_renders_as_spread() {
    let src = "type Person struct {\nEmbedded\nAge int\n}";
    let out = transform(src, TransformTo::Typescript).unwrap();
    assert_eq!(out, "export interface Person { ...Embedded; Age: number; }\n");
}

#[test]
fn empty_input_renders_empty_output() {
    assert_eq!(transform("", TransformTo::Typescript).unwrap(), "");
    assert_eq!(transform("", TransformTo::Flow).unwrap(), "");
}

#[test]
fn builtin_type_keywords_map_to_target_types() {
    let src = "type T struct {\nA int64\nB float64\nC time.Time\nD bool\n}";
    let out = transform(src, TransformTo::Typescript).unwrap();
    assert_eq!(
        out,
        "export interface T { A: number; B: number; C: string; D: boolean; }\n"
    );
}

#[test]
fn pointer_sigil_is_discarded() {
    let src = "type P struct {\nA *int\n}";
    let out = transform(src, TransformTo::Typescript).unwrap();
    assert_eq!(out, "export interface P { A: number; }\n");
}

#[test]
fn custom_type_passes_through_verbatim() {
    let src = "type P struct {\nOwner Person\n}";
    let out = transform(src, TransformTo::Typescript).unwrap();
    assert_eq!(out, "export interface P { Owner: Person; }\n");
}

#[test]
fn untyped_field_with_tags_renders_optional() {
    let src = "type U struct {\nF `json:\"f\"`\n}";
    let out = transform(src, TransformTo::Typescript).unwrap();
    assert_eq!(out, "export interface U { f?: any; }\n");
}

#[test]
fn binding_tag_has_no_effect_on_output() {
    let tagged = "type Region struct {\nCountry string `json:\"country\" binding:\"required\"`\n}";
    let untagged = "type Region struct {\nCountry string `json:\"country\"`\n}";
    assert_eq!(
        transform(tagged, TransformTo::Typescript).unwrap(),
        transform(untagged, TransformTo::Typescript).unwrap()
    );
}

#[test]
fn last_json_tag_wins() {
    let src = "type R struct {\nA string `json:\"first\" json:\"second\"`\n}";
    let out = transform(src, TransformTo::Typescript).unwrap();
    assert_eq!(out, "export interface R { second: string; }\n");
}

#[test]
fn two_structs_concatenate_in_source_order() {
    let src = "type A struct {\nX int\n}\ntype B struct {\nY string\n}";
    let out = transform(src, TransformTo::Typescript).unwrap();
    assert_eq!(
        out,
        "export interface A { X: number; }\nexport interface B { Y: string; }\n"
    );
}

#[test]
fn empty_struct_renders_empty_body() {
    let src = "type E struct {}";
    let out = transform(src, TransformTo::Typescript).unwrap();
    assert_eq!(out, "export interface E { }\n");
}

#[test]
fn transform_is_deterministic() {
    let src = "type Region struct {\nCountry string `json:\"country\"`\nState string\n}";
    let first = transform(src, TransformTo::Typescript).unwrap();
    let second = transform(src, TransformTo::Typescript).unwrap();
    assert_eq!(first, second);
}
