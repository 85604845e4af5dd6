//! The SDL text each demo schema assembles to, character for character.
use dynamic_schema::demo;

#[test]
fn sdl_of_simple_object_demo() {
    let schema = demo::simple_object::create_schema().unwrap();
    assert_eq!(
        schema.sdl(),
        "type Query {\n  user: User!\n}\n\n\
         type User {\n  id: String!\n  name: String!\n  avatar: Image\n}\n\n\
         type Image {\n  url: String!\n}\n\n\
         schema {\n  query: Query\n}\n"
    );
}

#[test]
fn sdl_of_expand_object_demo() {
    let schema = demo::expand_object::create_schema().unwrap();
    assert_eq!(
        schema.sdl(),
        "type Query {\n  me: User\n}\n\n\
         type User {\n  id: String!\n  name: String!\n  avatar: Image\n}\n\n\
         type Image {\n  url: String!\n}\n\n\
         schema {\n  query: Query\n}\n"
    );
}

#[test]
fn sdl_of_enums_demo() {
    let schema = demo::enums::create_schema().unwrap();
    assert_eq!(
        schema.sdl(),
        "enum Direction {\n  North\n  East\n  South\n  West\n}\n\n\
         type Query {\n  next(direction: Direction!): Direction!\n}\n\n\
         schema {\n  query: Query\n}\n"
    );
}

#[test]
fn sdl_of_mutation_demo() {
    let schema = demo::mutation::create_schema().unwrap();
    assert_eq!(
        schema.sdl(),
        "type Query {\n  count: Int!\n}\n\n\
         type Mutation {\n  increment: Int!\n  decrement: Int!\n}\n\n\
         schema {\n  query: Query\n  mutation: Mutation\n}\n"
    );
}

#[test]
fn sdl_of_union_demo() {
    let schema = demo::union::create_schema().unwrap();
    assert_eq!(
        schema.sdl(),
        "union FooBar = Foo | Bar\n\n\
         type Query {\n  foobar: FooBar!\n  new_foobar: FooBar!\n}\n\n\
         type Foo {\n  foo: String!\n}\n\n\
         type Bar {\n  bar: String!\n}\n\n\
         schema {\n  query: Query\n}\n"
    );
}

#[test]
fn sdl_of_interfaces_demo() {
    let schema = demo::interfaces::create_schema().unwrap();
    assert_eq!(
        schema.sdl(),
        "interface Node {\n  id: String!\n}\n\n\
         interface NamedNode implements Node {\n  name: String!\n  id: String!\n}\n\n\
         interface Aged {\n  age: Int!\n}\n\n\
         type Query {\n  user: User!\n}\n\n\
         type User implements Node & NamedNode & Aged {\n  id: String!\n  name: String!\n  age: Int!\n}\n\n\
         schema {\n  query: Query\n}\n"
    );
}

#[test]
fn sdl_of_auto_demo() {
    let schema = demo::auto::create_schema().unwrap();
    assert_eq!(
        schema.sdl(),
        "interface Node {\n  id: String!\n}\n\n\
         interface NamedNode implements Node {\n  name: String!\n  id: String!\n}\n\n\
         interface Aged {\n  age: Int!\n}\n\n\
         type Query {\n  user: User!\n}\n\n\
         type User implements Node & NamedNode & Aged {\n  id: String!\n  name: String!\n  age: Int!\n}\n\n\
         schema {\n  query: Query\n}\n"
    );
}

#[test]
fn sdl_of_interface_output_demo() {
    let schema = demo::interface_output::create_schema().unwrap();
    assert_eq!(
        schema.sdl(),
        "interface Node {\n  id: String!\n}\n\n\
         type Query {\n  node(id: String!): Node\n}\n\n\
         type FooNode implements Node {\n  name: String!\n  foo: String!\n  id: String!\n}\n\n\
         type BarNode implements Node {\n  name: String!\n  bar: String!\n  id: String!\n}\n\n\
         schema {\n  query: Query\n}\n"
    );
}

#[test]
fn sdl_of_input_list_demo() {
    let schema = demo::input_list::create_schema().unwrap();
    assert_eq!(
        schema.sdl(),
        "input BarInput {\n  bar: String!\n}\n\n\
         type Query {\n  foo: Foo!\n}\n\n\
         type Foo {\n  \
         by_objects(input: [BarInput!]!): String!\n  \
         by_strings(input: [String!]!): String!\n  \
         by_ints(input: [Int!]!): Int!\n  \
         by_floats(input: [Float!]!): Float!\n  \
         by_bools(input: [Boolean!]!): Boolean!\n  \
         by_ids(input: [ID!]!): ID!\n}\n\n\
         schema {\n  query: Query\n}\n"
    );
}

#[test]
fn sdl_of_union_with_interface_demo() {
    let schema = demo::union_with_interface::create_schema().unwrap();
    assert_eq!(
        schema.sdl(),
        "union Animal = Dog | Cat | Snake\n\n\
         interface Named {\n  name: String!\n}\n\n\
         type Query {\n  pet: Animal!\n}\n\n\
         type Dog implements Named {\n  name: String!\n  power: Int!\n}\n\n\
         type Cat implements Named {\n  name: String!\n  life: Int!\n}\n\n\
         type Snake {\n  length: Int!\n}\n\n\
         schema {\n  query: Query\n}\n"
    );
}
