//! The assembled, immutable schema: every accumulated definition laid out
//! in a stable category order, plus the root operation type names, rendered
//! on demand as SDL text.
//!
//! The SDL text is the externally checkable contract of an assembly run:
//! for a given registration sequence it is pinned, character by character,
//! by the spec functions in this module.
use vstd::prelude::*;

use crate::text::int_str;
use crate::types::{ConstValue, EnumDef, FieldDef, InputObjectDef, InputValueDef, InterfaceDef,
    ObjectDef, TypeRef, UnionDef};

verus! {

/// The result of a successful assembly: the category maps after fixpoint
/// injection, in their insertion order, and the root operation types.
pub struct Schema {
    pub query_name: String,
    pub mutation_name: Option<String>,
    pub enums: Vec<EnumDef>,
    pub unions: Vec<UnionDef>,
    pub interfaces: Vec<InterfaceDef>,
    pub input_types: Vec<InputObjectDef>,
    pub types: Vec<ObjectDef>,
    pub extend_types: Vec<ObjectDef>,
}

/// The character sequences of a vector of strings.
pub open spec fn str_views(ss: Seq<String>) -> Seq<Seq<char>> {
    ss.map_values(|s: String| s@)
}

/// Names joined by a separator, in order.
pub open spec fn join_names(ns: Seq<Seq<char>>, sep: Seq<char>) -> Seq<char>
    decreases ns.len(),
{
    if ns.len() == 0 {
        Seq::empty()
    } else if ns.len() == 1 {
        ns[0]
    } else {
        join_names(ns.drop_last(), sep) + sep + ns.last()
    }
}

/// SDL form of a type reference: `Name`, `T!`, or `[T]`.
pub open spec fn type_ref_sdl(t: TypeRef) -> Seq<char>
    decreases t,
{
    match t {
        TypeRef::Named(n) => n@,
        TypeRef::NonNull(inner) => type_ref_sdl(*inner) + "!"@,
        TypeRef::List(inner) => "["@ + type_ref_sdl(*inner) + "]"@,
    }
}

/// SDL form of a constant value, as used for argument defaults.
pub open spec fn const_value_sdl(v: ConstValue) -> Seq<char> {
    match v {
        ConstValue::Null => "null"@,
        ConstValue::Bool(b) => if b {
            "true"@
        } else {
            "false"@
        },
        ConstValue::Int(i) => int_str(i as int),
        ConstValue::Str(s) => "\""@ + s@ + "\""@,
        ConstValue::EnumName(n) => n@,
    }
}

/// SDL form of one argument or input field: `name: Type` with an optional
/// ` = default`.
pub open spec fn arg_sdl(a: InputValueDef) -> Seq<char> {
    a.name@ + ": "@ + type_ref_sdl(a.ty) + (match a.default {
        Some(v) => " = "@ + const_value_sdl(v),
        None => Seq::<char>::empty(),
    })
}

/// SDL form of an argument list, comma separated.
pub open spec fn args_sdl(args: Seq<InputValueDef>) -> Seq<char>
    decreases args.len(),
{
    if args.len() == 0 {
        Seq::empty()
    } else if args.len() == 1 {
        arg_sdl(args[0])
    } else {
        args_sdl(args.drop_last()) + ", "@ + arg_sdl(args.last())
    }
}

/// SDL line for one field, indented, with its arguments and result type.
pub open spec fn field_sdl(f: FieldDef) -> Seq<char> {
    "  "@ + f.name@ + (if f.args@.len() == 0 {
        Seq::<char>::empty()
    } else {
        "("@ + args_sdl(f.args@) + ")"@
    }) + ": "@ + type_ref_sdl(f.ty) + "\n"@
}

/// SDL lines for a field list, in declaration order.
pub open spec fn fields_sdl(fs: Seq<FieldDef>) -> Seq<char>
    decreases fs.len(),
{
    if fs.len() == 0 {
        Seq::empty()
    } else {
        fields_sdl(fs.drop_last()) + field_sdl(fs.last())
    }
}

/// The ` implements A & B` clause, or nothing.
pub open spec fn implements_sdl(is: Seq<Seq<char>>) -> Seq<char> {
    if is.len() == 0 {
        Seq::empty()
    } else {
        " implements "@ + join_names(is, " & "@)
    }
}

/// SDL block for one object type.
pub open spec fn object_sdl(o: ObjectDef) -> Seq<char> {
    "type "@ + o.name@ + implements_sdl(str_views(o.implements@)) + " {\n"@ + fields_sdl(o.fields@)
        + "}\n\n"@
}

/// SDL block for one interface type.
pub open spec fn interface_sdl(d: InterfaceDef) -> Seq<char> {
    "interface "@ + d.name@ + implements_sdl(str_views(d.implements@)) + " {\n"@ + fields_sdl(
        d.fields@,
    ) + "}\n\n"@
}

/// SDL line for one input field, indented.
pub open spec fn input_field_sdl(a: InputValueDef) -> Seq<char> {
    "  "@ + arg_sdl(a) + "\n"@
}

/// SDL lines for an input field list.
pub open spec fn input_fields_sdl(fs: Seq<InputValueDef>) -> Seq<char>
    decreases fs.len(),
{
    if fs.len() == 0 {
        Seq::empty()
    } else {
        input_fields_sdl(fs.drop_last()) + input_field_sdl(fs.last())
    }
}

/// SDL block for one input object type (`oneOf` marked when required).
pub open spec fn input_object_sdl(d: InputObjectDef) -> Seq<char> {
    "input "@ + d.name@ + (if d.oneof {
        " @oneOf"@
    } else {
        Seq::<char>::empty()
    }) + " {\n"@ + input_fields_sdl(d.fields@) + "}\n\n"@
}

/// SDL lines for the items of an enum.
pub open spec fn enum_items_sdl(items: Seq<String>) -> Seq<char>
    decreases items.len(),
{
    if items.len() == 0 {
        Seq::empty()
    } else {
        enum_items_sdl(items.drop_last()) + "  "@ + items.last()@ + "\n"@
    }
}

/// SDL block for one enum type.
pub open spec fn enum_sdl(d: EnumDef) -> Seq<char> {
    "enum "@ + d.name@ + " {\n"@ + enum_items_sdl(d.items@) + "}\n\n"@
}

/// SDL line for one union type.
pub open spec fn union_sdl(d: UnionDef) -> Seq<char> {
    "union "@ + d.name@ + " = "@ + join_names(str_views(d.members@), " | "@) + "\n\n"@
}

/// SDL blocks of every enum, in insertion order.
pub open spec fn enums_sdl(ds: Seq<EnumDef>) -> Seq<char>
    decreases ds.len(),
{
    if ds.len() == 0 {
        Seq::empty()
    } else {
        enums_sdl(ds.drop_last()) + enum_sdl(ds.last())
    }
}

/// SDL blocks of every union, in insertion order.
pub open spec fn unions_sdl(ds: Seq<UnionDef>) -> Seq<char>
    decreases ds.len(),
{
    if ds.len() == 0 {
        Seq::empty()
    } else {
        unions_sdl(ds.drop_last()) + union_sdl(ds.last())
    }
}

/// SDL blocks of every interface, in insertion order.
pub open spec fn interfaces_sdl(ds: Seq<InterfaceDef>) -> Seq<char>
    decreases ds.len(),
{
    if ds.len() == 0 {
        Seq::empty()
    } else {
        interfaces_sdl(ds.drop_last()) + interface_sdl(ds.last())
    }
}

/// SDL blocks of every input object, in insertion order.
pub open spec fn input_objects_sdl(ds: Seq<InputObjectDef>) -> Seq<char>
    decreases ds.len(),
{
    if ds.len() == 0 {
        Seq::empty()
    } else {
        input_objects_sdl(ds.drop_last()) + input_object_sdl(ds.last())
    }
}

/// SDL blocks of every object, in insertion order.
pub open spec fn objects_sdl(ds: Seq<ObjectDef>) -> Seq<char>
    decreases ds.len(),
{
    if ds.len() == 0 {
        Seq::empty()
    } else {
        objects_sdl(ds.drop_last()) + object_sdl(ds.last())
    }
}

/// The closing `schema { ... }` block naming the root operation types.
pub open spec fn schema_block_sdl(query: Seq<char>, mutation: Option<String>) -> Seq<char> {
    "schema {\n  query: "@ + query + "\n"@ + (match mutation {
        Some(m) => "  mutation: "@ + m@ + "\n"@,
        None => Seq::<char>::empty(),
    }) + "}\n"@
}

/// The whole SDL document: enums, unions, interfaces, input objects,
/// objects, extension objects — each category in insertion order — then
/// the schema block.
pub open spec fn schema_sdl(s: Schema) -> Seq<char> {
    enums_sdl(s.enums@) + unions_sdl(s.unions@) + interfaces_sdl(s.interfaces@) + input_objects_sdl(
        s.input_types@,
    ) + objects_sdl(s.types@) + objects_sdl(s.extend_types@) + schema_block_sdl(
        s.query_name@,
        s.mutation_name,
    )
}

/// Render a type reference.
pub fn type_ref_str(t: &TypeRef) -> (r: String)
    ensures
        r@ == type_ref_sdl(*t),
    decreases t,
{
    match t {
        TypeRef::Named(n) => n.clone(),
        TypeRef::NonNull(inner) => {
            let mut s = type_ref_str(inner);
            s.append("!");
            s
        },
        TypeRef::List(inner) => {
            let mut s = String::new();
            s.append("[");
            let body = type_ref_str(inner);
            s.append(body.as_str());
            s.append("]");
            s
        },
    }
}

/// Render a constant value.
pub fn const_value_str(v: &ConstValue) -> (r: String)
    ensures
        r@ == const_value_sdl(*v),
{
    match v {
        ConstValue::Null => {
            let mut s = String::new();
            s.append("null");
            s
        },
        ConstValue::Bool(b) => {
            let mut s = String::new();
            if *b {
                s.append("true");
            } else {
                s.append("false");
            }
            s
        },
        ConstValue::Int(i) => crate::text::i64_to_string(*i),
        ConstValue::Str(t) => {
            let mut s = String::new();
            s.append("\"");
            s.append(t.as_str());
            s.append("\"");
            s
        },
        ConstValue::EnumName(n) => n.clone(),
    }
}

/// Render one argument.
fn arg_str(a: &InputValueDef) -> (r: String)
    ensures
        r@ == arg_sdl(*a),
{
    let mut s = String::new();
    s.append(a.name.as_str());
    s.append(": ");
    let ty = type_ref_str(&a.ty);
    s.append(ty.as_str());
    match &a.default {
        Some(v) => {
            s.append(" = ");
            let dv = const_value_str(v);
            s.append(dv.as_str());
        },
        None => {},
    }
    s
}

/// Render an argument list, comma separated.
fn args_str(args: &Vec<InputValueDef>) -> (r: String)
    ensures
        r@ == args_sdl(args@),
{
    let n = args.len();
    let mut s = String::new();
    let mut i: usize = 0;
    proof {
        assert(args@.take(0) =~= Seq::<InputValueDef>::empty());
    }
    while i < n
        invariant
            i <= n,
            n == args@.len(),
            s@ == args_sdl(args@.take(i as int)),
        decreases n - i,
    {
        if i > 0 {
            s.append(", ");
        }
        let a = arg_str(&args[i]);
        s.append(a.as_str());
        proof {
            assert(args@.take(i as int + 1).drop_last() =~= args@.take(i as int));
            assert(args@.take(i as int + 1).last() == args@[i as int]);
            assert(args@.take(i as int + 1).len() == i + 1);
        }
        i = i + 1;
    }
    proof {
        assert(args@.take(n as int) =~= args@);
    }
    s
}

/// Render one field line.
fn field_str(f: &FieldDef) -> (r: String)
    ensures
        r@ == field_sdl(*f),
{
    let mut s = String::new();
    s.append("  ");
    s.append(f.name.as_str());
    if f.args.len() > 0 {
        s.append("(");
        let a = args_str(&f.args);
        s.append(a.as_str());
        s.append(")");
    }
    s.append(": ");
    let ty = type_ref_str(&f.ty);
    s.append(ty.as_str());
    s.append("\n");
    s
}

/// Render a block of field lines.
fn fields_str(fs: &Vec<FieldDef>) -> (r: String)
    ensures
        r@ == fields_sdl(fs@),
{
    let n = fs.len();
    let mut s = String::new();
    let mut i: usize = 0;
    proof {
        assert(fs@.take(0) =~= Seq::<FieldDef>::empty());
    }
    while i < n
        invariant
            i <= n,
            n == fs@.len(),
            s@ == fields_sdl(fs@.take(i as int)),
        decreases n - i,
    {
        let line = field_str(&fs[i]);
        s.append(line.as_str());
        proof {
            assert(fs@.take(i as int + 1).drop_last() =~= fs@.take(i as int));
            assert(fs@.take(i as int + 1).last() == fs@[i as int]);
        }
        i = i + 1;
    }
    proof {
        assert(fs@.take(n as int) =~= fs@);
    }
    s
}

/// Join a vector of names with a separator.
pub fn join_str(names: &Vec<String>, sep: &str) -> (r: String)
    ensures
        r@ == join_names(str_views(names@), sep@),
{
    let n = names.len();
    let mut s = String::new();
    let mut i: usize = 0;
    proof {
        assert(str_views(names@.take(0)) =~= Seq::<Seq<char>>::empty());
        assert(join_names(str_views(names@.take(0)), sep@) == Seq::<char>::empty());
    }
    while i < n
        invariant
            i <= n,
            n == names@.len(),
            s@ == join_names(str_views(names@.take(i as int)), sep@),
        decreases n - i,
    {
        if i > 0 {
            s.append(sep);
        }
        s.append(names[i].as_str());
        proof {
            let pre = str_views(names@.take(i as int));
            let cur = str_views(names@.take(i as int + 1));
            assert(cur.len() == i + 1);
            assert(cur.drop_last() =~= pre);
            assert(cur.last() == names@[i as int]@);
            if i == 0 {
                assert(cur[0] == names@[0]@);
            }
        }
        i = i + 1;
    }
    proof {
        assert(str_views(names@.take(n as int)) =~= str_views(names@));
    }
    s
}

/// Render the ` implements ...` clause of an object or interface.
fn implements_str(names: &Vec<String>) -> (r: String)
    ensures
        r@ == implements_sdl(str_views(names@)),
{
    let mut s = String::new();
    if names.len() > 0 {
        s.append(" implements ");
        let joined = join_str(names, " & ");
        s.append(joined.as_str());
    }
    s
}

/// Render one object type block.
pub fn object_str(o: &ObjectDef) -> (r: String)
    ensures
        r@ == object_sdl(*o),
{
    let mut s = String::new();
    s.append("type ");
    s.append(o.name.as_str());
    let imp = implements_str(&o.implements);
    s.append(imp.as_str());
    s.append(" {\n");
    let body = fields_str(&o.fields);
    s.append(body.as_str());
    s.append("}\n\n");
    s
}

/// Render one interface type block.
pub fn interface_str(d: &InterfaceDef) -> (r: String)
    ensures
        r@ == interface_sdl(*d),
{
    let mut s = String::new();
    s.append("interface ");
    s.append(d.name.as_str());
    let imp = implements_str(&d.implements);
    s.append(imp.as_str());
    s.append(" {\n");
    let body = fields_str(&d.fields);
    s.append(body.as_str());
    s.append("}\n\n");
    s
}

/// Render the input field lines of an input object.
fn input_fields_str(fs: &Vec<InputValueDef>) -> (r: String)
    ensures
        r@ == input_fields_sdl(fs@),
{
    let n = fs.len();
    let mut s = String::new();
    let mut i: usize = 0;
    proof {
        assert(fs@.take(0) =~= Seq::<InputValueDef>::empty());
    }
    while i < n
        invariant
            i <= n,
            n == fs@.len(),
            s@ == input_fields_sdl(fs@.take(i as int)),
        decreases n - i,
    {
        s.append("  ");
        let a = arg_str(&fs[i]);
        s.append(a.as_str());
        s.append("\n");
        proof {
            assert(fs@.take(i as int + 1).drop_last() =~= fs@.take(i as int));
            assert(fs@.take(i as int + 1).last() == fs@[i as int]);
        }
        i = i + 1;
    }
    proof {
        assert(fs@.take(n as int) =~= fs@);
    }
    s
}

/// Render one input object type block.
pub fn input_object_str(d: &InputObjectDef) -> (r: String)
    ensures
        r@ == input_object_sdl(*d),
{
    let mut s = String::new();
    s.append("input ");
    s.append(d.name.as_str());
    if d.oneof {
        s.append(" @oneOf");
    }
    s.append(" {\n");
    let body = input_fields_str(&d.fields);
    s.append(body.as_str());
    s.append("}\n\n");
    s
}

/// Render one enum type block.
pub fn enum_str(d: &EnumDef) -> (r: String)
    ensures
        r@ == enum_sdl(*d),
{
    let mut s = String::new();
    s.append("enum ");
    s.append(d.name.as_str());
    s.append(" {\n");
    let n = d.items.len();
    let mut i: usize = 0;
    let mut body = String::new();
    proof {
        assert(d.items@.take(0) =~= Seq::<String>::empty());
    }
    while i < n
        invariant
            i <= n,
            n == d.items@.len(),
            body@ == enum_items_sdl(d.items@.take(i as int)),
        decreases n - i,
    {
        body.append("  ");
        body.append(d.items[i].as_str());
        body.append("\n");
        proof {
            assert(d.items@.take(i as int + 1).drop_last() =~= d.items@.take(i as int));
            assert(d.items@.take(i as int + 1).last() == d.items@[i as int]);
        }
        i = i + 1;
    }
    proof {
        assert(d.items@.take(n as int) =~= d.items@);
    }
    s.append(body.as_str());
    s.append("}\n\n");
    s
}

/// Render one union type line.
pub fn union_str(d: &UnionDef) -> (r: String)
    ensures
        r@ == union_sdl(*d),
{
    let mut s = String::new();
    s.append("union ");
    s.append(d.name.as_str());
    s.append(" = ");
    let joined = join_str(&d.members, " | ");
    s.append(joined.as_str());
    s.append("\n\n");
    s
}

impl Schema {
    /// Render the whole schema as SDL text: every category in insertion
    /// order, then the schema block.  The output is pinned exactly by
    /// `schema_sdl`.
    pub fn sdl(&self) -> (r: String)
        ensures
            r@ == schema_sdl(*self),
    {
        let mut s = String::new();
        let mut i: usize = 0;
        let n_enums = self.enums.len();
        proof {
            assert(self.enums@.take(0) =~= Seq::<EnumDef>::empty());
        }
        while i < n_enums
            invariant
                i <= n_enums,
                n_enums == self.enums@.len(),
                s@ == enums_sdl(self.enums@.take(i as int)),
            decreases n_enums - i,
        {
            let block = enum_str(&self.enums[i]);
            s.append(block.as_str());
            proof {
                assert(self.enums@.take(i as int + 1).drop_last() =~= self.enums@.take(i as int));
                assert(self.enums@.take(i as int + 1).last() == self.enums@[i as int]);
            }
            i = i + 1;
        }
        proof {
            assert(self.enums@.take(n_enums as int) =~= self.enums@);
        }
        let mut i: usize = 0;
        let n_unions = self.unions.len();
        let ghost pre1 = s@;
        proof {
            assert(self.unions@.take(0) =~= Seq::<UnionDef>::empty());
            assert(s@ =~= pre1 + unions_sdl(self.unions@.take(0)));
        }
        while i < n_unions
            invariant
                i <= n_unions,
                n_unions == self.unions@.len(),
                pre1 == enums_sdl(self.enums@),
                s@ == pre1 + unions_sdl(self.unions@.take(i as int)),
            decreases n_unions - i,
        {
            let block = union_str(&self.unions[i]);
            s.append(block.as_str());
            proof {
                assert(self.unions@.take(i as int + 1).drop_last() =~= self.unions@.take(i as int));
                assert(self.unions@.take(i as int + 1).last() == self.unions@[i as int]);
                assert(s@ =~= pre1 + unions_sdl(self.unions@.take(i as int + 1)));
            }
            i = i + 1;
        }
        proof {
            assert(self.unions@.take(n_unions as int) =~= self.unions@);
        }
        let mut i: usize = 0;
        let n_ifaces = self.interfaces.len();
        let ghost pre2 = s@;
        proof {
            assert(self.interfaces@.take(0) =~= Seq::<InterfaceDef>::empty());
            assert(s@ =~= pre2 + interfaces_sdl(self.interfaces@.take(0)));
        }
        while i < n_ifaces
            invariant
                i <= n_ifaces,
                n_ifaces == self.interfaces@.len(),
                pre2 == enums_sdl(self.enums@) + unions_sdl(self.unions@),
                s@ == pre2 + interfaces_sdl(self.interfaces@.take(i as int)),
            decreases n_ifaces - i,
        {
            let block = interface_str(&self.interfaces[i]);
            s.append(block.as_str());
            proof {
                assert(self.interfaces@.take(i as int + 1).drop_last() =~= self.interfaces@.take(
                    i as int,
                ));
                assert(self.interfaces@.take(i as int + 1).last() == self.interfaces@[i as int]);
                assert(s@ =~= pre2 + interfaces_sdl(self.interfaces@.take(i as int + 1)));
            }
            i = i + 1;
        }
        proof {
            assert(self.interfaces@.take(n_ifaces as int) =~= self.interfaces@);
        }
        let mut i: usize = 0;
        let n_inputs = self.input_types.len();
        let ghost pre3 = s@;
        proof {
            assert(self.input_types@.take(0) =~= Seq::<InputObjectDef>::empty());
            assert(s@ =~= pre3 + input_objects_sdl(self.input_types@.take(0)));
        }
        while i < n_inputs
            invariant
                i <= n_inputs,
                n_inputs == self.input_types@.len(),
                pre3 == enums_sdl(self.enums@) + unions_sdl(self.unions@) + interfaces_sdl(
                    self.interfaces@,
                ),
                s@ == pre3 + input_objects_sdl(self.input_types@.take(i as int)),
            decreases n_inputs - i,
        {
            let block = input_object_str(&self.input_types[i]);
            s.append(block.as_str());
            proof {
                assert(self.input_types@.take(i as int + 1).drop_last() =~= self.input_types@.take(
                    i as int,
                ));
                assert(self.input_types@.take(i as int + 1).last() == self.input_types@[i as int]);
                assert(s@ =~= pre3 + input_objects_sdl(self.input_types@.take(i as int + 1)));
            }
            i = i + 1;
        }
        proof {
            assert(self.input_types@.take(n_inputs as int) =~= self.input_types@);
        }
        let mut i: usize = 0;
        let n_types = self.types.len();
        let ghost pre4 = s@;
        proof {
            assert(self.types@.take(0) =~= Seq::<ObjectDef>::empty());
            assert(s@ =~= pre4 + objects_sdl(self.types@.take(0)));
        }
        while i < n_types
            invariant
                i <= n_types,
                n_types == self.types@.len(),
                pre4 == enums_sdl(self.enums@) + unions_sdl(self.unions@) + interfaces_sdl(
                    self.interfaces@,
                ) + input_objects_sdl(self.input_types@),
                s@ == pre4 + objects_sdl(self.types@.take(i as int)),
            decreases n_types - i,
        {
            let block = object_str(&self.types[i]);
            s.append(block.as_str());
            proof {
                assert(self.types@.take(i as int + 1).drop_last() =~= self.types@.take(i as int));
                assert(self.types@.take(i as int + 1).last() == self.types@[i as int]);
                assert(s@ =~= pre4 + objects_sdl(self.types@.take(i as int + 1)));
            }
            i = i + 1;
        }
        proof {
            assert(self.types@.take(n_types as int) =~= self.types@);
        }
        let mut i: usize = 0;
        let n_ext = self.extend_types.len();
        let ghost pre5 = s@;
        proof {
            assert(self.extend_types@.take(0) =~= Seq::<ObjectDef>::empty());
            assert(s@ =~= pre5 + objects_sdl(self.extend_types@.take(0)));
        }
        while i < n_ext
            invariant
                i <= n_ext,
                n_ext == self.extend_types@.len(),
                pre5 == enums_sdl(self.enums@) + unions_sdl(self.unions@) + interfaces_sdl(
                    self.interfaces@,
                ) + input_objects_sdl(self.input_types@) + objects_sdl(self.types@),
                s@ == pre5 + objects_sdl(self.extend_types@.take(i as int)),
            decreases n_ext - i,
        {
            let block = object_str(&self.extend_types[i]);
            s.append(block.as_str());
            proof {
                assert(self.extend_types@.take(i as int + 1).drop_last()
                    =~= self.extend_types@.take(i as int));
                assert(self.extend_types@.take(i as int + 1).last() == self.extend_types@[
                    i as int]);
                assert(s@ =~= pre5 + objects_sdl(self.extend_types@.take(i as int + 1)));
            }
            i = i + 1;
        }
        proof {
            assert(self.extend_types@.take(n_ext as int) =~= self.extend_types@);
        }
        s.append("schema {\n  query: ");
        s.append(self.query_name.as_str());
        s.append("\n");
        match &self.mutation_name {
            Some(m) => {
                s.append("  mutation: ");
                s.append(m.as_str());
                s.append("\n");
            },
            None => {},
        }
        s.append("}\n");
        proof {
            assert(s@ =~= schema_sdl(*self));
        }
        s
    }
}

} // verus!
