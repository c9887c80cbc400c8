//! Interface types as plain data, and the JSON schema that describes the
//! values of a type to someone who inspects a component.

use vstd::prelude::*;
use vstd::string::*;

verus! {

/// An interface type of the component model.
#[derive(Debug)]
pub enum ValueType {
    Bool,
    S8,
    U8,
    S16,
    U16,
    S32,
    U32,
    S64,
    U64,
    Float32,
    Float64,
    Char,
    String,
    /// A list of values of one type.
    List(Box<ValueType>),
    /// A record: named fields, each with its type.
    Record(Vec<Field>),
    /// A tuple: one type per position.
    Tuple(Vec<ValueType>),
    /// A variant: named cases, each with or without a payload.
    Variant(Vec<Case>),
    /// An enumeration: named cases without payload.
    Enum(Vec<String>),
    /// A value that may be absent.
    Option(Box<ValueType>),
    /// Success or failure, each with or without a payload.
    Result(Option<Box<ValueType>>, Option<Box<ValueType>>),
    /// A set of named flags.
    Flags(Vec<String>),
    /// An owned handle to a resource.
    Own,
    /// A borrowed handle to a resource.
    Borrow,
}

/// One field of a record.
#[derive(Debug)]
pub struct Field {
    pub name: String,
    pub ty: ValueType,
}

/// One case of a variant.
#[derive(Debug)]
pub struct Case {
    pub name: String,
    pub ty: Option<ValueType>,
}

/// A JSON document as plain data. The entries of an object keep the order in
/// which they were written.
pub enum JsonModel {
    Null,
    String(Seq<char>),
    Array(Seq<JsonModel>),
    Object(Seq<(Seq<char>, JsonModel)>),
}

/// A JSON document.
#[derive(Debug)]
pub enum Json {
    Null,
    String(String),
    Array(Vec<Json>),
    Object(Vec<Member>),
}

/// One entry of a JSON object.
#[derive(Debug)]
pub struct Member {
    pub key: String,
    pub value: Json,
}

/// The document as plain data.
pub open spec fn json_model(json: Json) -> JsonModel
    decreases json,
{
    match json {
        Json::Null => JsonModel::Null,
        Json::String(text) => JsonModel::String(text@),
        Json::Array(items) => JsonModel::Array(
            Seq::new(
                items.len() as nat,
                |i: int|
                    if 0 <= i < items.len() {
                        json_model(items[i])
                    } else {
                        JsonModel::Null
                    },
            ),
        ),
        Json::Object(members) => JsonModel::Object(
            Seq::new(
                members.len() as nat,
                |i: int|
                    if 0 <= i < members.len() {
                        (members[i].key@, json_model(members[i].value))
                    } else {
                        (Seq::empty(), JsonModel::Null)
                    },
            ),
        ),
    }
}

impl View for Json {
    type V = JsonModel;

    open spec fn view(&self) -> JsonModel {
        json_model(*self)
    }
}

/// Whether values of the type can be described: no handle to a resource
/// occurs in it.
pub open spec fn representable(ty: ValueType) -> bool
    decreases ty,
{
    match ty {
        ValueType::Own | ValueType::Borrow => false,
        ValueType::List(item) => representable(*item),
        ValueType::Option(item) => representable(*item),
        ValueType::Record(fields) => forall|i: int|
            0 <= i < fields.len() ==> representable(#[trigger] fields[i].ty),
        ValueType::Tuple(items) => forall|i: int|
            0 <= i < items.len() ==> representable(#[trigger] items[i]),
        ValueType::Variant(cases) => forall|i: int|
            0 <= i < cases.len() ==> match (#[trigger] cases[i]).ty {
                Some(payload) => representable(payload),
                None => true,
            },
        ValueType::Result(ok, err) => (match ok {
            Some(payload) => representable(*payload),
            None => true,
        }) && (match err {
            Some(payload) => representable(*payload),
            None => true,
        }),
        _ => true,
    }
}

/// The schema `{"type": name}`.
pub open spec fn typed(name: Seq<char>) -> JsonModel {
    JsonModel::Object(seq![("type"@, JsonModel::String(name))])
}

/// The schema of an integer: `{"type": "integer", "format": format}`.
pub open spec fn integer(format: Seq<char>) -> JsonModel {
    JsonModel::Object(
        seq![("type"@, JsonModel::String("integer"@)), ("format"@, JsonModel::String(format))],
    )
}

/// The schema of an object with the given properties:
/// `{"type": "object", "properties": {..}}`.
pub open spec fn object_of(properties: Seq<(Seq<char>, JsonModel)>) -> JsonModel {
    JsonModel::Object(
        seq![
            ("type"@, JsonModel::String("object"@)),
            ("properties"@, JsonModel::Object(properties)),
        ],
    )
}

/// The schema of an array: `{"type": "array", key: content}`, where the key
/// is `items` for a list and `prefixItems` for a tuple.
pub open spec fn array_of(key: Seq<char>, content: JsonModel) -> JsonModel {
    JsonModel::Object(seq![("type"@, JsonModel::String("array"@)), (key, content)])
}

/// The schema of one case of a variant: its name as the title, and the schema
/// of its payload, where it has one, as the only member of `allOf`.
pub open spec fn case_of(name: Seq<char>, payload: Option<JsonModel>) -> JsonModel {
    match payload {
        Some(inner) => JsonModel::Object(
            seq![
                ("title"@, JsonModel::String(name)),
                ("allOf"@, JsonModel::Array(seq![inner])),
            ],
        ),
        None => JsonModel::Object(seq![("title"@, JsonModel::String(name))]),
    }
}

/// The JSON schema of an interface type.
///
/// Where the type holds a handle to a resource, `null` stands in the place of
/// the handle's schema; `to_json_schema` reports such a type as an error.
pub open spec fn schema(ty: ValueType) -> JsonModel
    decreases ty,
{
    match ty {
        ValueType::Bool => typed("boolean"@),
        ValueType::Char | ValueType::String => typed("string"@),
        ValueType::Float32 | ValueType::Float64 => typed("number"@),
        ValueType::S8 | ValueType::S16 | ValueType::S32 | ValueType::S64 => integer("int"@),
        ValueType::U8 | ValueType::U16 | ValueType::U32 | ValueType::U64 => integer("uint"@),
        ValueType::Enum(names) => JsonModel::Object(
            seq![
                ("type"@, JsonModel::String("string"@)),
                (
                    "enum"@,
                    JsonModel::Array(
                        Seq::new(names.len() as nat, |i: int| JsonModel::String(names[i]@)),
                    ),
                ),
            ],
        ),
        ValueType::Flags(names) => object_of(
            Seq::new(names.len() as nat, |i: int| (names[i]@, typed("boolean"@))),
        ),
        ValueType::List(item) => array_of("items"@, schema(*item)),
        ValueType::Option(item) => JsonModel::Object(
            seq![("anyOf"@, JsonModel::Array(seq![typed("null"@), schema(*item)]))],
        ),
        ValueType::Record(fields) => object_of(
            Seq::new(
                fields.len() as nat,
                |i: int|
                    if 0 <= i < fields.len() {
                        (fields[i].name@, schema(fields[i].ty))
                    } else {
                        (Seq::empty(), JsonModel::Null)
                    },
            ),
        ),
        ValueType::Result(ok, err) => object_of(
            seq![
                (
                    "Ok"@,
                    match ok {
                        Some(payload) => schema(*payload),
                        None => JsonModel::Null,
                    },
                ),
                (
                    "Err"@,
                    match err {
                        Some(payload) => schema(*payload),
                        None => JsonModel::Null,
                    },
                ),
            ],
        ),
        ValueType::Tuple(items) => array_of(
            "prefixItems"@,
            JsonModel::Array(
                Seq::new(
                    items.len() as nat,
                    |i: int|
                        if 0 <= i < items.len() {
                            schema(items[i])
                        } else {
                            JsonModel::Null
                        },
                ),
            ),
        ),
        ValueType::Variant(cases) => JsonModel::Object(
            seq![
                (
                    "oneOf"@,
                    JsonModel::Array(
                        Seq::new(
                            cases.len() as nat,
                            |i: int|
                                if 0 <= i < cases.len() {
                                    case_of(
                                        cases[i].name@,
                                        match cases[i].ty {
                                            Some(payload) => Some(schema(payload)),
                                            None => None,
                                        },
                                    )
                                } else {
                                    JsonModel::Null
                                },
                        ),
                    ),
                ),
            ],
        ),
        ValueType::Own | ValueType::Borrow => JsonModel::Null,
    }
}

/// The type holds a handle to a resource, whose values no schema describes.
#[derive(Debug, PartialEq, Eq)]
pub struct Unrepresentable;

impl Json {
    /// The JSON string with the given text.
    pub fn string(text: &str) -> (r: Json)
        ensures
            r@ == JsonModel::String(text@),
    {
        Json::String(String::from_str(text))
    }

    /// The JSON object with the given entries, in their order.
    pub fn object(members: Vec<Member>) -> (r: Json)
        ensures
            r@ == JsonModel::Object(
                Seq::new(members.len() as nat, |i: int| (members[i].key@, members[i].value@)),
            ),
    {
        let r = Json::Object(members);
        assert(r@->Object_0 =~= Seq::new(
            members.len() as nat,
            |i: int| (members[i].key@, members[i].value@),
        ));
        r
    }

    /// The JSON array with the given items.
    pub fn array(items: Vec<Json>) -> (r: Json)
        ensures
            r@ == JsonModel::Array(Seq::new(items.len() as nat, |i: int| items[i]@)),
    {
        let r = Json::Array(items);
        assert(r@->Array_0 =~= Seq::new(items.len() as nat, |i: int| items[i]@));
        r
    }

    /// The object with one entry.
    fn single(key: &str, value: Json) -> (r: Json)
        ensures
            r@ == JsonModel::Object(seq![(key@, value@)]),
    {
        let mut entries: Vec<Member> = Vec::new();
        entries.push(Member { key: String::from_str(key), value });
        let r = Json::object(entries);
        assert(r@->Object_0 =~= seq![(key@, value@)]);
        r
    }

    /// The object with two entries.
    fn pair(first: &str, a: Json, second: &str, b: Json) -> (r: Json)
        ensures
            r@ == JsonModel::Object(seq![(first@, a@), (second@, b@)]),
    {
        let mut entries: Vec<Member> = Vec::new();
        entries.push(Member { key: String::from_str(first), value: a });
        entries.push(Member { key: String::from_str(second), value: b });
        let r = Json::object(entries);
        assert(r@->Object_0 =~= seq![(first@, a@), (second@, b@)]);
        r
    }

    fn typed(name: &str) -> (r: Json)
        ensures
            r@ == typed(name@),
    {
        Json::single("type", Json::string(name))
    }

    fn integer(format: &str) -> (r: Json)
        ensures
            r@ == integer(format@),
    {
        Json::pair("type", Json::string("integer"), "format", Json::string(format))
    }

    fn object_of(properties: Vec<Member>) -> (r: Json)
        ensures
            r@ == object_of(
                Seq::new(
                    properties.len() as nat,
                    |i: int| (properties[i].key@, properties[i].value@),
                ),
            ),
    {
        Json::pair("type", Json::string("object"), "properties", Json::object(properties))
    }

    fn array_of(key: &str, content: Json) -> (r: Json)
        ensures
            r@ == array_of(key@, content@),
    {
        Json::pair("type", Json::string("array"), key, content)
    }

    fn case_of(name: &str, payload: Option<Json>) -> (r: Json)
        ensures
            r@ == case_of(
                name@,
                match payload {
                    Some(inner) => Some(inner@),
                    None => None,
                },
            ),
    {
        match payload {
            Some(inner) => {
                let mut members: Vec<Json> = Vec::new();
                let ghost model = inner@;
                members.push(inner);
                let all = Json::array(members);
                assert(all@->Array_0 =~= seq![model]);
                Json::pair("title", Json::string(name), "allOf", all)
            },
            None => Json::single("title", Json::string(name)),
        }
    }
}

impl ValueType {
    /// The JSON schema that describes the values of the type, or an error
    /// where a handle to a resource occurs in it.
    pub fn to_json_schema(&self) -> (r: Result<Json, Unrepresentable>)
        ensures
            r is Ok <==> representable(*self),
            r matches Ok(json) ==> json@ == schema(*self),
        decreases self,
    {
        match self {
            ValueType::Bool => Ok(Json::typed("boolean")),
            ValueType::Char | ValueType::String => Ok(Json::typed("string")),
            ValueType::Float32 | ValueType::Float64 => Ok(Json::typed("number")),
            ValueType::S8 | ValueType::S16 | ValueType::S32 | ValueType::S64 => Ok(
                Json::integer("int"),
            ),
            ValueType::U8 | ValueType::U16 | ValueType::U32 | ValueType::U64 => Ok(
                Json::integer("uint"),
            ),
            ValueType::Enum(names) => {
                let mut values: Vec<Json> = Vec::new();
                let mut i: usize = 0;
                while i < names.len()
                    invariant
                        i <= names.len(),
                        values.len() == i,
                        forall|k: int| 0 <= k < i ==> values[k]@ == JsonModel::String(names[k]@),
                    decreases names.len() - i,
                {
                    values.push(Json::string(names[i].as_str()));
                    i += 1;
                }
                let list = Json::array(values);
                assert(list@->Array_0 =~= Seq::new(
                    names.len() as nat,
                    |i: int| JsonModel::String(names[i]@),
                ));
                let r = Json::pair("type", Json::string("string"), "enum", list);
                Ok(r)
            },
            ValueType::Flags(names) => {
                let mut properties: Vec<Member> = Vec::new();
                let mut i: usize = 0;
                while i < names.len()
                    invariant
                        i <= names.len(),
                        properties.len() == i,
                        forall|k: int|
                            0 <= k < i ==> properties[k].key@ == names[k]@
                                && properties[k].value@ == typed("boolean"@),
                    decreases names.len() - i,
                {
                    properties.push(Member { key: names[i].clone(), value: Json::typed("boolean") });
                    i += 1;
                }
                let r = Json::object_of(properties);
                assert(Seq::new(
                    properties.len() as nat,
                    |i: int| (properties[i].key@, properties[i].value@),
                ) =~= Seq::new(names.len() as nat, |i: int| (names[i]@, typed("boolean"@))));
                Ok(r)
            },
            ValueType::List(item) => match item.to_json_schema() {
                Ok(inner) => Ok(Json::array_of("items", inner)),
                Err(e) => Err(e),
            },
            ValueType::Option(item) => match item.to_json_schema() {
                Ok(inner) => {
                    let mut any: Vec<Json> = Vec::new();
                    let ghost model = inner@;
                    any.push(Json::typed("null"));
                    any.push(inner);
                    let list = Json::array(any);
                    assert(list@->Array_0 =~= seq![typed("null"@), model]);
                    let r = Json::single("anyOf", list);
                        Ok(r)
                },
                Err(e) => Err(e),
            },
            ValueType::Record(fields) => {
                let mut properties: Vec<Member> = Vec::new();
                let mut i: usize = 0;
                while i < fields.len()
                    invariant
                        i <= fields.len(),
                        properties.len() == i,
                        *self == ValueType::Record(*fields),
                        forall|k: int| 0 <= k < i ==> representable(#[trigger] fields[k].ty),
                        forall|k: int|
                            0 <= k < i ==> properties[k].key@ == fields[k].name@
                                && properties[k].value@ == schema(fields[k].ty),
                    decreases fields.len() - i,
                {
                    match fields[i].ty.to_json_schema() {
                        Ok(inner) => properties.push(
                            Member { key: fields[i].name.clone(), value: inner },
                        ),
                        Err(e) => {
                            return Err(e);
                        },
                    }
                    i += 1;
                }
                let r = Json::object_of(properties);
                assert(Seq::new(
                    properties.len() as nat,
                    |i: int| (properties[i].key@, properties[i].value@),
                ) =~= Seq::new(
                    fields.len() as nat,
                    |i: int|
                        if 0 <= i < fields.len() {
                            (fields[i].name@, schema(fields[i].ty))
                        } else {
                            (Seq::empty(), JsonModel::Null)
                        },
                ));
                let ghost described = Seq::new(
                    properties.len() as nat,
                    |i: int| (properties[i].key@, properties[i].value@),
                );
                assert(schema(*self)->Object_0[1].1->Object_0 =~= described);
                assert(schema(*self)->Object_0 =~= seq![
                    ("type"@, JsonModel::String("object"@)),
                    ("properties"@, JsonModel::Object(described)),
                ]);
                Ok(r)
            },
            ValueType::Result(ok, err) => {
                let ok_schema = match ok {
                    Some(payload) => match payload.to_json_schema() {
                        Ok(inner) => inner,
                        Err(e) => {
                            return Err(e);
                        },
                    },
                    None => Json::Null,
                };
                let err_schema = match err {
                    Some(payload) => match payload.to_json_schema() {
                        Ok(inner) => inner,
                        Err(e) => {
                            return Err(e);
                        },
                    },
                    None => Json::Null,
                };
                let ghost a = ok_schema@;
                let ghost b = err_schema@;
                let mut properties: Vec<Member> = Vec::new();
                properties.push(Member { key: String::from_str("Ok"), value: ok_schema });
                properties.push(Member { key: String::from_str("Err"), value: err_schema });
                let r = Json::object_of(properties);
                assert(Seq::new(
                    properties.len() as nat,
                    |i: int| (properties[i].key@, properties[i].value@),
                ) =~= seq![("Ok"@, a), ("Err"@, b)]);
                assert(schema(*self)->Object_0[1].1->Object_0 =~= seq![("Ok"@, a), ("Err"@, b)]);
                assert(schema(*self)->Object_0 =~= seq![
                    ("type"@, JsonModel::String("object"@)),
                    ("properties"@, JsonModel::Object(seq![("Ok"@, a), ("Err"@, b)])),
                ]);
                Ok(r)
            },
            ValueType::Tuple(items) => {
                let mut schemas: Vec<Json> = Vec::new();
                let mut i: usize = 0;
                while i < items.len()
                    invariant
                        i <= items.len(),
                        schemas.len() == i,
                        *self == ValueType::Tuple(*items),
                        forall|k: int| 0 <= k < i ==> representable(#[trigger] items[k]),
                        forall|k: int| 0 <= k < i ==> schemas[k]@ == schema(items[k]),
                    decreases items.len() - i,
                {
                    match items[i].to_json_schema() {
                        Ok(inner) => schemas.push(inner),
                        Err(e) => {
                            return Err(e);
                        },
                    }
                    i += 1;
                }
                let list = Json::array(schemas);
                assert(list@->Array_0 =~= Seq::new(
                    items.len() as nat,
                    |i: int|
                        if 0 <= i < items.len() {
                            schema(items[i])
                        } else {
                            JsonModel::Null
                        },
                ));
                let ghost listed = list@;
                let r = Json::array_of("prefixItems", list);
                assert(schema(*self)->Object_0[1].1->Array_0 =~= listed->Array_0);
                assert(schema(*self)->Object_0 =~= seq![
                    ("type"@, JsonModel::String("array"@)),
                    ("prefixItems"@, listed),
                ]);
                Ok(r)
            },
            ValueType::Variant(cases) => {
                let mut schemas: Vec<Json> = Vec::new();
                let mut i: usize = 0;
                while i < cases.len()
                    invariant
                        i <= cases.len(),
                        schemas.len() == i,
                        *self == ValueType::Variant(*cases),
                        forall|k: int|
                            0 <= k < i ==> match (#[trigger] cases[k]).ty {
                                Some(payload) => representable(payload),
                                None => true,
                            },
                        forall|k: int|
                            0 <= k < i ==> schemas[k]@ == case_of(
                                cases[k].name@,
                                match cases[k].ty {
                                    Some(payload) => Some(schema(payload)),
                                    None => None,
                                },
                            ),
                    decreases cases.len() - i,
                {
                    let payload = match &cases[i].ty {
                        Some(payload) => match payload.to_json_schema() {
                            Ok(inner) => Some(inner),
                            Err(e) => {
                                return Err(e);
                            },
                        },
                        None => None,
                    };
                    schemas.push(Json::case_of(cases[i].name.as_str(), payload));
                    i += 1;
                }
                let list = Json::array(schemas);
                assert(list@->Array_0 =~= Seq::new(
                    cases.len() as nat,
                    |i: int|
                        if 0 <= i < cases.len() {
                            case_of(
                                cases[i].name@,
                                match cases[i].ty {
                                    Some(payload) => Some(schema(payload)),
                                    None => None,
                                },
                            )
                        } else {
                            JsonModel::Null
                        },
                ));
                let ghost listed = list@;
                let r = Json::single("oneOf", list);
                assert(schema(*self)->Object_0[0].1->Array_0 =~= listed->Array_0);
                assert(schema(*self)->Object_0 =~= seq![("oneOf"@, listed)]);
                Ok(r)
            },
            ValueType::Own | ValueType::Borrow => Err(Unrepresentable),
        }
    }
}

} // verus!
