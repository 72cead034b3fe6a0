use fire_compiler::parser::program_structure::{Container, Program, Table};
use fire_compiler::parser_traits::{
    Annotation, DataType, Dir, Enum, FireFile, GlobalVariable, LocalVariable, Package,
    ProgramResources, ResourceHolder, TopLevelResource,
};
use fire_compiler::resources::ResourceLoc;

fn loc(path: &[&str]) -> ResourceLoc {
    let mut l = ResourceLoc::new();
    for s in path {
        l = l.with(String::from(*s));
    }
    l
}

#[test]
fn a_new_location_is_empty() {
    assert!(ResourceLoc::new().loc.is_empty());
    assert_eq!(ResourceLoc::new().len(), 0);
    assert_eq!(ResourceLoc::new().to_string(), "");
}

#[test]
fn with_makes_a_longer_location_and_leaves_the_shorter_one() {
    let std = ResourceLoc::new().with(String::from("std"));
    let operators = std.with(String::from("operators"));
    let add = operators.with(String::from("Add")).with(String::from("add"));
    assert_eq!(std.loc, vec![String::from("std")]);
    assert_eq!(operators.loc, vec![String::from("std"), String::from("operators")]);
    assert_eq!(add.len(), 4);
    assert_eq!(add.to_string(), "std::operators::Add::add");
    assert_eq!(std.to_string(), "std");
}

#[test]
fn locations_are_equal_when_their_segments_are() {
    assert_eq!(loc(&["a", "b"]), loc(&["a", "b"]));
    assert_ne!(loc(&["a", "b"]), loc(&["a"]));
    assert_ne!(loc(&["a", "b"]), loc(&["a", "c"]));
    assert_ne!(loc(&["a", "b"]), loc(&["b", "a"]));
    assert_eq!(ResourceLoc::new(), loc(&[]));
}

#[test]
fn a_set_of_locations_holds_none_twice() {
    let mut set = ProgramResources::new();
    assert!(!set.contains(&loc(&["a"])));
    assert!(set.insert(loc(&["a"])));
    assert!(set.insert(loc(&["a", "b"])));
    assert!(!set.insert(loc(&["a"])));
    assert!(set.contains(&loc(&["a"])));
    assert!(set.contains(&loc(&["a", "b"])));
    assert!(!set.contains(&loc(&["b"])));
    assert_eq!(set.resources.len(), 2);
}

#[test]
fn a_table_holds_each_name_once() {
    let mut table: Table<u32> = Table::new();
    assert_eq!(table.len(), 0);
    assert_eq!(table.get(&String::from("a")), None);
    table.insert(String::from("a"), 1);
    table.insert(String::from("b"), 2);
    assert_eq!(table.get(&String::from("a")), Some(&1));
    assert_eq!(table.get(&String::from("b")), Some(&2));
    assert_eq!(table.get(&String::from("c")), None);
    table.insert(String::from("a"), 3);
    assert_eq!(table.len(), 2);
    assert_eq!(table.get(&String::from("a")), Some(&3));
    assert_eq!(table.get(&String::from("b")), Some(&2));
    assert_eq!(table.get_inner(&String::from("b")), Some(&2));
}

#[test]
fn members_of_a_program_are_found_by_name() {
    let mut fields: Table<GlobalVariable> = Table::new();
    fields.insert(
        String::from("F"),
        GlobalVariable { annotations: vec![], var_type: DataType::Enum() },
    );
    let gender = Enum {
        annotations: vec![Annotation { name: String::from("Save"), params: vec![] }],
        fields,
    };
    assert!(gender.get_inner(&String::from("F")).is_some());
    assert!(gender.get_inner(&String::from("M")).is_none());

    let mut declarations: Table<TopLevelResource> = Table::new();
    declarations.insert(String::from("Gender"), TopLevelResource::Enum(gender));
    let file = FireFile(declarations);
    assert!(matches!(file.get_inner(&String::from("Gender")), Some(TopLevelResource::Enum(_))));
    assert!(file.get_inner(&String::from("gender")).is_none());

    let mut inside: Table<ResourceHolder> = Table::new();
    inside.insert(String::from("people"), ResourceHolder::FireFile(file));
    let dir = Dir(inside);
    assert!(matches!(dir.get_inner(&String::from("people")), Some(ResourceHolder::FireFile(_))));

    let mut top: Table<ResourceHolder> = Table::new();
    top.insert(String::from("model"), ResourceHolder::Dir(dir));
    let package = Package(top);
    assert!(matches!(package.get_inner(&String::from("model")), Some(ResourceHolder::Dir(_))));
    assert!(package.get_inner(&String::from("people")).is_none());

    let mut program = Program::new();
    assert!(program.get_inner(&String::from("game")).is_none());
    program.packages.insert(String::from("game"), package);
    assert!(program.get_inner(&String::from("game")).is_some());
    assert!(program.get_inner(&String::from("std")).is_none());

    let local = LocalVariable { name: String::from("x"), var_type: DataType::Struct() };
    assert_eq!(local.name, "x");
}
