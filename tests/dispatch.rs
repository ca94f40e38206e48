use gdbus::convert::{FromVariant, ToVariant};
use gdbus::interface::{DispatchError, MethodDesc, Schema, SchemaError};
use gdbus::message::{reply_action, MessageType, ReplyAction};
use gdbus::own_name::{OwnName, Type, Watch};
use gdbus::signature::TypeTag;
use gdbus::variant::{DecodingError, EncodingError, Value, Variant};

fn method(name: &str, args: Vec<TypeTag>, returns: Vec<TypeTag>) -> MethodDesc {
    MethodDesc { name: String::from(name), args, returns }
}

fn test_schema() -> Schema {
    Schema::new(vec![
        method("Increment", vec![TypeTag::Int64], vec![TypeTag::Int64]),
        method(
            "MultipleResults",
            vec![TypeTag::Int64],
            vec![TypeTag::Int16, TypeTag::UInt16, TypeTag::Int32, TypeTag::UInt32, TypeTag::UInt64],
        ),
        method("Log", vec![TypeTag::Text], vec![]),
        method("HelloWorld", vec![TypeTag::Text], vec![TypeTag::Text]),
    ])
    .unwrap()
}

fn handler(index: usize, args: Vec<Value>) -> Vec<Value> {
    let x = match &args[0] {
        Value::Int64(x) => *x,
        Value::Text(_) => 0,
        _ => panic!("unexpected argument"),
    };
    match index {
        0 => vec![Value::Int64(x + 1)],
        1 => vec![
            Value::Int16(x as i16 - 2),
            Value::UInt16(x as u16 - 1),
            Value::Int32(x as i32),
            Value::UInt32(x as u32 + 1),
            Value::UInt64(x as u64 + 2),
        ],
        2 => vec![],
        _ => vec![Value::Int64(x)],
    }
}

#[test]
fn increment_replies_with_its_successor() {
    let schema = test_schema();
    let args = (41i64,).to_variant().unwrap();
    let reply = schema.dispatch("Increment", args, handler).unwrap().unwrap();
    assert_eq!(<(i64,)>::from_variant(reply), Ok((42i64,)));
}

#[test]
fn multiple_results_keep_their_widths() {
    let schema = test_schema();
    let args = (41i64,).to_variant().unwrap();
    let reply = schema.dispatch("MultipleResults", args, handler).unwrap().unwrap();
    assert_eq!(reply.signature(), "(nqiut)");
    assert_eq!(
        <(i16, u16, i32, u32, u64)>::from_variant(reply),
        Ok((39i16, 40u16, 41i32, 42u32, 43u64))
    );
}

#[test]
fn unknown_method_is_reported() {
    let schema = test_schema();
    let args = (41i64,).to_variant().unwrap();
    assert_eq!(
        schema.dispatch("NoSuchMethod", args, handler).err(),
        Some(DispatchError::UnknownMethod)
    );
    let args = (41i64,).to_variant().unwrap();
    assert_eq!(schema.dispatch("increment", args, handler).err(), Some(DispatchError::UnknownMethod));
}

#[test]
fn method_without_results_sends_no_reply() {
    let schema = test_schema();
    let args = ("message",).to_variant().unwrap();
    assert_eq!(schema.dispatch("Log", args, handler).unwrap().is_none(), true);
}

#[test]
fn mistyped_arguments_are_a_decoding_error() {
    let schema = test_schema();
    let args = (41i32,).to_variant().unwrap();
    assert_eq!(
        schema.dispatch("Increment", args, handler).err(),
        Some(DispatchError::Decoding(DecodingError::SignatureMismatch))
    );
    let truncated = Variant::new(vec![TypeTag::Int64], vec![1, 2]);
    assert_eq!(
        schema.dispatch("Increment", truncated, handler).err(),
        Some(DispatchError::Decoding(DecodingError::InvalidBody))
    );
}

#[test]
fn handler_results_of_other_types_are_refused() {
    let schema = test_schema();
    let args = ("hi",).to_variant().unwrap();
    let r = schema.dispatch("HelloWorld", args, |_: usize, _: Vec<Value>| vec![Value::Int64(1)]);
    assert_eq!(r.err(), Some(DispatchError::TypeMismatch));
    let args = ("hi",).to_variant().unwrap();
    let r = schema.dispatch("HelloWorld", args, |_: usize, _: Vec<Value>| {
        vec![Value::Text(String::from("a\0b"))]
    });
    assert_eq!(r.err(), Some(DispatchError::Encoding(EncodingError::EmbeddedNul)));
}

#[test]
fn duplicate_method_names_are_refused() {
    let r = Schema::new(vec![
        method("Ping", vec![], vec![]),
        method("Pong", vec![], vec![]),
        method("Ping", vec![TypeTag::Byte], vec![]),
    ]);
    assert_eq!(r.err(), Some(SchemaError::DuplicateMethod));
}

#[test]
fn routing_finds_the_method_and_its_arguments() {
    let schema = test_schema();
    let call = schema.route("HelloWorld", ("Me",).to_variant().unwrap()).ok().unwrap();
    assert_eq!(call.index, 3);
    assert_eq!(call.args, vec![Value::Text(String::from("Me"))]);
    assert_eq!(schema.find("Log"), Some(2));
    assert_eq!(schema.find("Nothing"), None);
    assert_eq!(schema.len(), 4);
    assert_eq!(schema.method(1).name, "MultipleResults");
}

#[test]
fn client_requests_and_reads_replies() {
    let schema = test_schema();
    let q = schema.request("Increment", &vec![Value::Int64(41)]).ok().unwrap();
    assert_eq!(q.index, 0);
    assert_eq!(q.body.signature(), "(x)");
    assert_eq!(q.body.body(), &vec![41, 0, 0, 0, 0, 0, 0, 0]);
    let reply = (42i64,).to_variant().unwrap();
    assert_eq!(schema.read_reply(q.index, reply), Ok(vec![Value::Int64(42)]));
    let wrong = (42i32,).to_variant().unwrap();
    assert_eq!(schema.read_reply(0, wrong), Err(DecodingError::SignatureMismatch));
    assert_eq!(
        schema.request("Increment", &vec![Value::Int32(41)]).err(),
        Some(DispatchError::TypeMismatch)
    );
    assert_eq!(schema.request("Missing", &vec![]).err(), Some(DispatchError::UnknownMethod));
    assert_eq!(
        schema.request("Log", &vec![Value::Text(String::from("\0"))]).err(),
        Some(DispatchError::Encoding(EncodingError::EmbeddedNul))
    );
}

#[test]
fn reply_of_a_method_without_results_is_empty() {
    let schema = test_schema();
    assert_eq!(schema.reply(2, &vec![]).ok(), Some(None));
    assert_eq!(schema.reply(2, &vec![Value::Byte(1)]).err(), Some(DispatchError::TypeMismatch));
}

#[test]
fn bus_types_have_their_codes() {
    assert_eq!(Type::Starter.to_glib(), -1);
    assert_eq!(Type::NoBus.to_glib(), 0);
    assert_eq!(Type::System.to_glib(), 1);
    assert_eq!(Type::Session.to_glib(), 2);
}

#[test]
fn name_handles_keep_their_ids() {
    assert_eq!(OwnName::from_id(7).get_id(), 7);
    assert_eq!(Watch::from_id(9).get_id(), 9);
}

#[test]
fn answers_to_calls_are_classified() {

    assert_eq!(reply_action(true, MessageType::MethodReturn), ReplyAction::LocalError);
    assert_eq!(reply_action(true, MessageType::Error), ReplyAction::LocalError);
    assert_eq!(reply_action(false, MessageType::Error), ReplyAction::RemoteError);
    assert_eq!(reply_action(false, MessageType::MethodReturn), ReplyAction::Deliver);
}

#[test]
fn introspection_lists_methods_with_their_signatures() {
    let schema = Schema::new(vec![
        method("Increment", vec![TypeTag::Int64], vec![TypeTag::Int64]),
        method("Log<&\">", vec![TypeTag::Text, TypeTag::Boolean], vec![]),
    ])
    .unwrap();
    assert_eq!(
        schema.introspection_xml("org.example.Test"),
        "<node><interface name=\"org.example.Test\">\
         <method name=\"Increment\"><arg type=\"x\" direction=\"in\"/><arg type=\"x\" direction=\"out\"/></method>\
         <method name=\"Log&lt;&amp;&quot;&gt;\"><arg type=\"s\" direction=\"in\"/><arg type=\"b\" direction=\"in\"/></method>\
         </interface></node>"
    );
    let empty = Schema::new(vec![]).unwrap();
    assert_eq!(empty.introspection_xml("a.B"), "<node><interface name=\"a.B\"></interface></node>");
}

fn add_to_total(total: i64, _index: usize, args: Vec<Value>) -> (i64, Vec<Value>) {
    match args[0] {
        Value::Int64(x) => (total + x, vec![Value::Int64(total + x)]),
        _ => (total, vec![]),
    }
}

#[test]
fn stateful_dispatch_threads_the_state() {
    let schema = Schema::new(vec![method("Add", vec![TypeTag::Int64], vec![TypeTag::Int64])]).unwrap();
    let (total, reply) = schema.dispatch_stateful(10i64, "Add", (5i64,).to_variant().unwrap(), add_to_total);
    assert_eq!(total, 15);
    assert_eq!(<(i64,)>::from_variant(reply.unwrap().unwrap()), Ok((15i64,)));
    let (total, reply) = schema.dispatch_stateful(total, "Add", (27i64,).to_variant().unwrap(), add_to_total);
    assert_eq!(total, 42);
    assert_eq!(<(i64,)>::from_variant(reply.unwrap().unwrap()), Ok((42i64,)));
    let (total, reply) = schema.dispatch_stateful(total, "Sub", (1i64,).to_variant().unwrap(), add_to_total);
    assert_eq!(total, 42);
    assert_eq!(reply.err(), Some(DispatchError::UnknownMethod));
}
