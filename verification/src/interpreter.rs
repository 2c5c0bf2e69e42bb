//! The renderers: turn the AST into target-dialect source text, one
//! dialect per variant of [`TransformTo`].
//!
//! The spec-level function [`s_interpret`] gives the exact output text
//! for any AST and dialect; [`interpret`] is proved to produce it.
//! Both dialects share the field-rendering rules and differ only in the
//! header and footer around each struct.

use vstd::prelude::*;

use crate::ast::{
    fields_view, tags_view, ASTV, DataType, DataTypeV, Field, FieldType, FieldTypeV, FieldV,
    StructDeclaration, StructDeclarationV, Tag, TagV, AST,
};
use crate::text::str_eq;

verus! {

/// The target dialect.
#[derive(Debug, Clone, Copy, PartialEq, Eq, Structural)]
pub enum TransformTo {
    Flow,
    Typescript,
}

/// The renderers' one failure mode: a top-level item that is not a
/// struct declaration.  It marks a contract violation between the AST
/// producer and the renderer, not a source-text defect.
#[derive(Debug, Clone, Copy, PartialEq, Eq, Structural)]
pub enum InterpreterError {
    ExpectedStructFoundField,
}

// ---------------------------------------------------------------------
// Rendering, as a specification
// ---------------------------------------------------------------------

/// The target-dialect text of a data type; a custom identifier passes
/// through verbatim, and an unspecified type renders as `any`.
pub open spec fn type_text(d: DataTypeV) -> Seq<char> {
    match d {
        DataTypeV::Number => "number"@,
        DataTypeV::Text => "string"@,
        DataTypeV::Boolean => "boolean"@,
        DataTypeV::Custom(s) => s,
        DataTypeV::Unspecified => "any"@,
    }
}

/// The name a field renders under: the value of the last `json` tag if
/// any is present, else the declared name.
pub open spec fn resolved_name(name: Seq<char>, tags: Seq<TagV>) -> Seq<char>
    decreases tags.len(),
{
    if tags.len() == 0 {
        name
    } else {
        let n2 = if tags[0].key == "json"@ {
            tags[0].value
        } else {
            name
        };
        resolved_name(n2, tags.drop_first())
    }
}

/// One rendered field entry: a field of unspecified type renders with
/// an optional marker, a list field with an array suffix.
pub open spec fn field_entry(name: Seq<char>, ft: FieldTypeV) -> Seq<char> {
    match ft {
        FieldTypeV::One(DataTypeV::Unspecified) => name + "?: any; "@,
        FieldTypeV::One(d) => name + ": "@ + type_text(d) + "; "@,
        FieldTypeV::List(d) => name + ": "@ + type_text(d) + "[]; "@,
    }
}

/// The contribution of one field: blanks contribute nothing, an
/// embedded type renders as a spread of its members, and a field whose
/// resolved name is `-` is dropped entirely.
pub open spec fn render_field(f: FieldV) -> Seq<char> {
    match f {
        FieldV::Blank => Seq::empty(),
        FieldV::Embedded(name) => "..."@ + name + "; "@,
        FieldV::Plain(name, ft) => field_entry(name, ft),
        FieldV::WithTags(name, ft, tags) => {
            let rn = resolved_name(name, tags);
            if rn == "-"@ {
                Seq::empty()
            } else {
                field_entry(rn, ft)
            }
        },
    }
}

/// The concatenation of the fields' contributions, in declaration
/// order.
pub open spec fn render_fields(fs: Seq<FieldV>) -> Seq<char>
    decreases fs.len(),
{
    if fs.len() == 0 {
        Seq::empty()
    } else {
        render_field(fs[0]) + render_fields(fs.drop_first())
    }
}

/// The header each dialect opens a struct with.
pub open spec fn new_interface_text(mode: TransformTo, name: Seq<char>) -> Seq<char> {
    match mode {
        TransformTo::Flow => "export type "@ + name + " = { "@,
        TransformTo::Typescript => "export interface "@ + name + " { "@,
    }
}

/// The footer each dialect closes a struct with.
pub open spec fn struct_footer(mode: TransformTo) -> Seq<char> {
    match mode {
        TransformTo::Flow => "};\n"@,
        TransformTo::Typescript => "}\n"@,
    }
}

/// The full text of one struct.
pub open spec fn render_struct(mode: TransformTo, d: StructDeclarationV) -> Seq<char> {
    new_interface_text(mode, d.name) + render_fields(d.body) + struct_footer(mode)
}

/// The full output: the structs' texts concatenated in source order, or
/// the error if any top-level item is not a struct declaration.
pub open spec fn s_interpret(ast: Seq<ASTV>, mode: TransformTo) -> Result<
    Seq<char>,
    InterpreterError,
>
    decreases ast.len(),
{
    if ast.len() == 0 {
        Ok(Seq::empty())
    } else {
        match ast[0] {
            ASTV::Declaration(d) => match s_interpret(ast.drop_first(), mode) {
                Ok(rest) => Ok(render_struct(mode, d) + rest),
                Err(e) => Err(e),
            },
            ASTV::Field(_) => Err(InterpreterError::ExpectedStructFoundField),
        }
    }
}

// ---------------------------------------------------------------------
// Laws
// ---------------------------------------------------------------------

/// The rendered body is the concatenation, in order, of each field's
/// own contribution: fields are never reordered, merged or duplicated.
pub proof fn lemma_render_fields_flatten(fs: Seq<FieldV>)
    ensures
        render_fields(fs) == fs.map_values(|f: FieldV| render_field(f)).flatten(),
    decreases fs.len(),
{
    let mapped = fs.map_values(|f: FieldV| render_field(f));
    if fs.len() == 0 {
        assert(mapped =~= Seq::<Seq<char>>::empty());
        assert(mapped.flatten() =~= Seq::<char>::empty());
    } else {
        lemma_render_fields_flatten(fs.drop_first());
        assert(fs.drop_first().map_values(|f: FieldV| render_field(f)) =~= mapped.drop_first());
        assert(mapped.flatten() == mapped.first() + mapped.drop_first().flatten());
        assert(render_fields(fs) =~= mapped.flatten());
    }
}

/// A field whose resolved json-tag value is exactly `-` contributes
/// nothing: removing it from the body leaves the rendered text
/// unchanged, so its siblings stay intact and in order.
pub proof fn lemma_dropped_field_leaves_siblings(fs: Seq<FieldV>, k: int)
    requires
        0 <= k < fs.len(),
        fs[k] matches FieldV::WithTags(name, ft, tags) && resolved_name(name, tags) == "-"@,
    ensures
        render_fields(fs) == render_fields(fs.remove(k)),
    decreases fs.len(),
{
    if k == 0 {
        assert(render_field(fs[0]) =~= Seq::<char>::empty());
        assert(fs.remove(0) =~= fs.drop_first());
        assert(render_fields(fs) =~= render_fields(fs.drop_first()));
    } else {
        lemma_dropped_field_leaves_siblings(fs.drop_first(), k - 1);
        assert(fs.remove(k).drop_first() =~= fs.drop_first().remove(k - 1));
        assert(fs.remove(k)[0] == fs[0]);
        assert(render_fields(fs) =~= render_fields(fs.remove(k)));
    }
}

/// A plain field with a specified type renders as exactly one entry,
/// its declared name joined to the mapped target type; so a struct of
/// plain typed fields renders one entry per field, in order.
pub proof fn lemma_plain_field_entry(name: Seq<char>, d: DataTypeV)
    requires
        !(d is Unspecified),
    ensures
        render_field(FieldV::Plain(name, FieldTypeV::One(d))) == name + ": "@ + type_text(d)
            + "; "@,
        render_field(FieldV::Plain(name, FieldTypeV::List(d))) == name + ": "@ + type_text(d)
            + "[]; "@,
{
}

/// Rendering is deterministic and idempotent: any two outputs that both
/// satisfy the renderer's contract for the same AST and dialect are the
/// same text.
pub proof fn lemma_interpret_deterministic(
    ast: Seq<ASTV>,
    mode: TransformTo,
    r1: Seq<char>,
    r2: Seq<char>,
)
    requires
        s_interpret(ast, mode) == Ok::<Seq<char>, InterpreterError>(r1),
        s_interpret(ast, mode) == Ok::<Seq<char>, InterpreterError>(r2),
    ensures
        r1 == r2,
{
}

// ---------------------------------------------------------------------
// Rendering, executable
// ---------------------------------------------------------------------

/// The target-dialect text of one data type.
fn get_field_type(d: &DataType) -> (s: String)
    ensures
        s@ == type_text(d@),
{
    match d {
        DataType::Number => String::from_str("number"),
        DataType::Text => String::from_str("string"),
        DataType::Boolean => String::from_str("boolean"),
        DataType::Custom(c) => c.clone(),
        DataType::Unspecified => String::from_str("any"),
    }
}

/// Joins a resolved field name and its type into one rendered entry.
fn convert_field_type(name: String, ft: &FieldType) -> (s: String)
    ensures
        s@ == field_entry(name@, ft@),
{
    let mut s = name;
    match ft {
        FieldType::One(DataType::Unspecified) => {
            s.append("?: any; ");
        },
        FieldType::One(d) => {
            s.append(": ");
            let t = get_field_type(d);
            s.append(t.as_str());
            s.append("; ");
        },
        FieldType::List(d) => {
            s.append(": ");
            let t = get_field_type(d);
            s.append(t.as_str());
            s.append("[]; ");
        },
    }
    s
}

/// Applies the tag mapping to a field name: the last `json` entry wins.
fn interpret_json_tags(name: String, tags: &Vec<Tag>) -> (r: String)
    ensures
        r@ == resolved_name(name@, tags_view(tags@)),
{
    let ghost all = tags_view(tags@);
    proof {
        assert(all.skip(0) =~= all);
    }
    let mut cur = name;
    let mut k: usize = 0;
    while k < tags.len()
        invariant
            k <= tags@.len(),
            all == tags_view(tags@),
            resolved_name(name@, all) == resolved_name(cur@, all.skip(k as int)),
        decreases tags@.len() - k,
    {
        let ghost old_cur = cur@;
        let tag = &tags[k];
        if str_eq(tag.key.as_str(), "json") {
            cur = tag.value.clone();
        }
        proof {
            assert(all.skip(k as int)[0] == all[k as int]);
            assert(all.skip(k as int).drop_first() =~= all.skip(k + 1));
            assert(resolved_name(old_cur, all.skip(k as int)) == resolved_name(
                cur@,
                all.skip(k + 1),
            ));
        }
        k = k + 1;
    }
    proof {
        assert(all.skip(k as int) =~= Seq::<TagV>::empty());
    }
    cur
}

/// The contribution of one field to its struct's body.
fn interpret_field(f: &Field) -> (s: String)
    ensures
        s@ == render_field(f@),
{
    match f {
        Field::Blank => {
            let s = String::new();
            s
        },
        Field::Embedded(name) => {
            let mut s = String::new();
            s.append("...");
            s.append(name.as_str());
            s.append("; ");
            s
        },
        Field::Plain(name, ft) => convert_field_type(name.0.clone(), ft),
        Field::WithTags(name, ft, tags) => {
            let rn = interpret_json_tags(name.0.clone(), tags);
            if str_eq(rn.as_str(), "-") {
                String::new()
            } else {
                convert_field_type(rn, ft)
            }
        },
    }
}

proof fn lemma_render_fields_push(fs: Seq<FieldV>, f: FieldV)
    ensures
        render_fields(fs.push(f)) == render_fields(fs) + render_field(f),
    decreases fs.len(),
{
    if fs.len() == 0 {
        assert(fs.push(f).drop_first() =~= Seq::<FieldV>::empty());
        assert(render_fields(Seq::<FieldV>::empty()) =~= Seq::<char>::empty());
        assert(fs.push(f)[0] == f);
        assert(render_fields(fs.push(f)) =~= render_fields(fs) + render_field(f));
    } else {
        lemma_render_fields_push(fs.drop_first(), f);
        assert(fs.push(f).drop_first() =~= fs.drop_first().push(f));
        assert(fs.push(f)[0] == fs[0]);
        assert(render_field(fs[0]) + (render_fields(fs.drop_first()) + render_field(f))
            =~= render_fields(fs) + render_field(f));
        assert(render_fields(fs.push(f)) =~= render_fields(fs) + render_field(f));
    }
}

/// The rendered body of one struct: its fields' contributions in
/// declaration order.
fn interpret_struct_body(body: &Vec<Field>) -> (s: String)
    ensures
        s@ == render_fields(fields_view(body@)),
{
    let ghost all = fields_view(body@);
    let mut s = String::new();
    let mut k: usize = 0;
    while k < body.len()
        invariant
            k <= body@.len(),
            all == fields_view(body@),
            s@ == render_fields(all.take(k as int)),
        decreases body@.len() - k,
    {
        let piece = interpret_field(&body[k]);
        s.append(piece.as_str());
        proof {
            assert(all.take(k + 1) =~= all.take(k as int).push(all[k as int]));
            lemma_render_fields_push(all.take(k as int), all[k as int]);
        }
        k = k + 1;
    }
    proof {
        assert(all.take(k as int) =~= all);
    }
    s
}

impl TransformTo {
    /// The dialect's header for one struct.
    fn new_interface(self, name: &String) -> (s: String)
        ensures
            s@ == new_interface_text(self, name@),
    {
        let mut s = String::new();
        match self {
            TransformTo::Flow => {
                s.append("export type ");
                s.append(name.as_str());
                s.append(" = { ");
            },
            TransformTo::Typescript => {
                s.append("export interface ");
                s.append(name.as_str());
                s.append(" { ");
            },
        }
        s
    }
}

/// The full text of one struct in the chosen dialect.
fn interpret_struct(mode: TransformTo, d: &StructDeclaration) -> (s: String)
    ensures
        s@ == render_struct(mode, d@),
{
    let mut s = mode.new_interface(&d.name);
    let body = interpret_struct_body(&d.body);
    s.append(body.as_str());
    match mode {
        TransformTo::Flow => s.append("};\n"),
        TransformTo::Typescript => s.append("}\n"),
    }
    s
}

/// Renders the AST in the chosen dialect: every top-level item must be
/// a struct declaration, and the structs' texts are concatenated in
/// source order.
pub fn interpret(ast: &Vec<AST>, transform_to: TransformTo) -> (r: Result<String, InterpreterError>)
    ensures
        ({
            let sp = s_interpret(crate::ast::asts_view(ast@), transform_to);
            match r {
                Ok(s) => sp == Ok::<Seq<char>, InterpreterError>(s@),
                Err(e) => sp == Err::<Seq<char>, InterpreterError>(e),
            }
        }),
{
    let ghost av = crate::ast::asts_view(ast@);
    proof {
        assert(av.skip(0) =~= av);
    }
    let mut out = String::new();
    let mut k: usize = 0;
    while k < ast.len()
        invariant
            k <= ast@.len(),
            av == crate::ast::asts_view(ast@),
            ({
                let whole = s_interpret(av, transform_to);
                let cur = s_interpret(av.skip(k as int), transform_to);
                &&& (cur matches Ok(rest) ==> whole == Ok::<Seq<char>, InterpreterError>(
                    out@ + rest,
                ))
                &&& (cur matches Err(e) ==> whole == Err::<Seq<char>, InterpreterError>(e))
            }),
        decreases ast@.len() - k,
    {
        let ghost old_out = out@;
        proof {
            assert(av.skip(k as int)[0] == av[k as int]);
            assert(av.skip(k as int).drop_first() =~= av.skip(k + 1));
        }
        let item = &ast[k];
        match item {
            AST::Declaration(d) => {
                let piece = interpret_struct(transform_to, d);
                out.append(piece.as_str());
                proof {
                    let rest2 = s_interpret(av.skip(k + 1), transform_to);
                    if rest2 is Ok {
                        assert(old_out + (render_struct(transform_to, av[k as int]->Declaration_0)
                            + rest2->Ok_0) =~= out@ + rest2->Ok_0);
                    }
                }
            },
            AST::Field(_) => {
                return Err(InterpreterError::ExpectedStructFoundField);
            },
        }
        k = k + 1;
    }
    proof {
        assert(av.skip(k as int) =~= Seq::<ASTV>::empty());
        assert(out@ + Seq::<char>::empty() =~= out@);
    }
    Ok(out)
}

/// The TypeScript back end: the shared renderer fixed to the
/// TypeScript dialect.
pub struct TypeScriptInterpreter {}

impl TypeScriptInterpreter {
    pub fn new() -> (r: Self) {
        TypeScriptInterpreter {  }
    }

    /// Renders the AST as TypeScript interface declarations.
    pub fn interpret(&self, ast: &Vec<AST>) -> (r: Result<String, InterpreterError>)
        ensures
            ({
                let sp = s_interpret(crate::ast::asts_view(ast@), TransformTo::Typescript);
                match r {
                    Ok(s) => sp == Ok::<Seq<char>, InterpreterError>(s@),
                    Err(e) => sp == Err::<Seq<char>, InterpreterError>(e),
                }
            }),
    {
        interpret(ast, TransformTo::Typescript)
    }
}

} // verus!
