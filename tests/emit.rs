use variants_struct::emit::{join_texts, render};
use variants_struct::layout::{FieldLayout, RecordLayout, SlotKind};

fn layout(name: &str, enum_name: &str, vis: &str, fields: Vec<FieldLayout>) -> RecordLayout {
    RecordLayout {
        name: name.to_string(),
        enum_name: enum_name.to_string(),
        visibility: vis.to_string(),
        fields,
        derives: vec![],
        bounds: vec![],
        attrs: vec![],
    }
}

fn field(name: &str, variant: &str, slot: SlotKind) -> FieldLayout {
    FieldLayout { name: name.to_string(), variant: variant.to_string(), slot }
}

#[test]
fn joining() {
    let items = vec!["a".to_string(), "b".to_string(), "c".to_string()];
    assert_eq!(join_texts(&items, ", "), "a, b, c");
    assert_eq!(join_texts(&vec![], ", "), "");
    assert_eq!(join_texts(&vec!["x".to_string()], " + "), "x");
}

#[test]
fn unit_record_text() {
    let mut l = layout("NothingStruct", "Nothing", "pub", vec![]);
    l.derives = vec!["Debug".to_string(), "Clone".to_string()];
    assert_eq!(render(&l), "#[derive(Debug, Clone)]\npub struct NothingStruct;\n");
}

#[test]
fn single_field_record_text() {
    let mut l = layout("OneStruct", "One", "", vec![field("a", "A", SlotKind::Direct)]);
    l.bounds = vec!["Clone".to_string()];
    let expected = "#[derive()]
 struct OneStruct<T: Clone> {
    pub a: T
}
impl<T: Clone> OneStruct<T> {
    pub fn new(a: T) -> OneStruct<T> {
        OneStruct { a }
    }
    pub fn get_unchecked(&self, var: &One) -> &T {
        match var {
            &One::A => &self.a
        }
    }
    pub fn get_mut_unchecked(&mut self, var: &One) -> &mut T {
        match var {
            &One::A => &mut self.a
        }
    }
    pub fn get(&self, var: &One) -> Option<&T> {
        match var {
            &One::A => Some(&self.a)
        }
    }
    pub fn get_mut(&mut self, var: &One) -> Option<&mut T> {
        match var {
            &One::A => Some(&mut self.a)
        }
    }
}
impl<T: Clone> std::ops::Index<One> for OneStruct<T> {
    type Output = T;
    fn index(&self, var: One) -> &T {
        self.get_unchecked(&var)
    }
}
impl<T: Clone> std::ops::IndexMut<One> for OneStruct<T> {
    fn index_mut(&mut self, var: One) -> &mut T {
        self.get_mut_unchecked(&var)
    }
}
impl<T: Clone> std::ops::Index<&One> for OneStruct<T> {
    type Output = T;
    fn index(&self, var: &One) -> &T {
        self.get_unchecked(var)
    }
}
impl<T: Clone> std::ops::IndexMut<&One> for OneStruct<T> {
    fn index_mut(&mut self, var: &One) -> &mut T {
        self.get_mut_unchecked(var)
    }
}
";
    assert_eq!(render(&l), expected);
}

#[test]
fn keyed_fields_text() {
    let mut l = layout(
        "HasTuplesStruct",
        "HasTuples",
        "pub",
        vec![
            field("zero", "Zero", SlotKind::Direct),
            field("one", "One", SlotKind::Keyed("& 'static str".to_string(), None)),
            field("sv", "StructVariant", SlotKind::Keyed("i32".to_string(), Some("my_field".to_string()))),
        ],
    );
    l.derives = vec!["Clone".to_string()];
    l.bounds = vec!["Copy".to_string(), "Clone".to_string()];
    l.attrs = vec!["serde(bound = \"\")".to_string()];
    let text = render(&l);
    assert!(text.starts_with("#[derive(Clone)]\n#[serde(bound = \"\")]\npub struct HasTuplesStruct<T: Copy + Clone> {\n"));
    assert!(text.contains("    pub zero: T,\n    pub one: std::collections::HashMap<& 'static str, T>,\n    pub sv: std::collections::HashMap<i32, T>\n}\n"));
    assert!(text.contains("    pub fn new(zero: T) -> HasTuplesStruct<T> {\n        HasTuplesStruct { zero, one: std::collections::HashMap::new(), sv: std::collections::HashMap::new() }\n"));
    assert!(text.contains("&HasTuples::One(key) => self.one.get(&key).expect(\"tuple variant key not found in hashmap\")"));
    assert!(text.contains("&HasTuples::StructVariant { my_field } => self.sv.get_mut(&my_field).expect(\"tuple variant key not found in hashmap\")"));
    assert!(text.contains("&HasTuples::One(key) => self.one.get_mut(&key),\n"));
    assert!(text.contains("&HasTuples::Zero => Some(&mut self.zero),\n"));
}
