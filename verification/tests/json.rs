use script_modules::engine::Engine;
use script_modules::metadata::document::Document;
use script_modules::module::{FnAccess, FnNamespace, FnOrigin, FuncInfo, Module};
use serde::ser::{SerializeMap, SerializeSeq};
use serde::{Serialize, Serializer};

struct Encoded<'a>(&'a Document);

impl Serialize for Encoded<'_> {
    fn serialize<S: Serializer>(&self, serializer: S) -> Result<S::Ok, S::Error> {
        match self.0 {
            Document::Text(text) => serializer.serialize_str(text),
            Document::Number(n) => serializer.serialize_u64(*n as u64),
            Document::List(items) => {
                let mut seq = serializer.serialize_seq(Some(items.len()))?;
                for item in items {
                    seq.serialize_element(&Encoded(item))?;
                }
                seq.end()
            }
            Document::Object(fields) => {
                let mut map = serializer.serialize_map(Some(fields.len()))?;
                for (name, value) in fields {
                    map.serialize_entry(name, &Encoded(value))?;
                }
                map.end()
            }
        }
    }
}

fn function(name: &str, names: &[&str], origin: FnOrigin) -> FuncInfo {
    FuncInfo {
        namespace: FnNamespace::Global,
        access: FnAccess::Public,
        name: name.to_string(),
        params: 1,
        param_names: Some(names.iter().map(|s| s.to_string()).collect()),
        origin,
    }
}

#[test]
fn engine_scenario_as_json() {
    let mut util = Module::new();
    util.set_fn(function(
        "g",
        &["x"],
        FnOrigin::Script { comments: vec!["/// one".to_string(), "/// two".to_string()] },
    ));
    let mut engine = Engine::new();
    engine.register_fn(function("f", &["a: Int", "Bool"], FnOrigin::Native));
    engine.register_static_module("util", util);
    let document = engine.gen_fn_metadata(None, false).to_document();
    let json = serde_json::to_string_pretty(&Encoded(&document)).unwrap();
    let expected = r#"{
  "modules": {
    "util": {
      "functions": [
        {
          "namespace": "global",
          "access": "public",
          "name": "g",
          "type": "script",
          "numParams": 1,
          "params": [
            {
              "name": "x"
            }
          ],
          "returnType": "x",
          "docComments": [
            "/// one",
            "/// two"
          ]
        }
      ]
    }
  },
  "functions": [
    {
      "namespace": "global",
      "access": "public",
      "name": "f",
      "type": "native",
      "numParams": 1,
      "params": [
        {
          "name": "a",
          "type": "Int"
        }
      ],
      "returnType": "Bool"
    }
  ]
}"#;
    assert_eq!(json, expected);
}

#[test]
fn empty_engine_as_json() {
    let document = Engine::new().gen_fn_metadata(None, true).to_document();
    assert_eq!(serde_json::to_string_pretty(&Encoded(&document)).unwrap(), "{}");
}

#[test]
fn json_reads_back_with_the_same_fields() {
    let mut engine = Engine::new();
    engine.register_fn(function("quote\"d", &["a\\b: T\n", "()"], FnOrigin::Native));
    let document = engine.gen_fn_metadata(None, false).to_document();
    let json = serde_json::to_string(&Encoded(&document)).unwrap();
    let value: serde_json::Value = serde_json::from_str(&json).unwrap();
    let f = &value["functions"][0];
    assert_eq!(f["name"], "quote\"d");
    assert_eq!(f["numParams"], 1);
    assert_eq!(f["params"][0]["name"], "a\\b");
    assert_eq!(f["params"][0]["type"], "T");
    assert_eq!(f["returnType"], "()");
    assert!(f.get("docComments").is_none());
    assert!(value.get("modules").is_none());
}
