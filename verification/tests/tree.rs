use include_lua::modules::ModuleMap;
use include_lua::naming::Convention;
use include_lua::tree::{resolve_tree, SourceFile, TreeError};

fn file(path: &str, text: &str) -> SourceFile {
    SourceFile { path: path.to_string(), text: text.to_string() }
}

fn lua() -> Convention {
    Convention::lua('/').unwrap()
}

fn modules(files: &Vec<SourceFile>) -> ModuleMap {
    match resolve_tree(files, &lua()) {
        Ok(map) => map,
        Err(error) => panic!("{:?}", error),
    }
}

fn entry(map: &ModuleMap, name: &str) -> Option<(String, String)> {
    map.get(name).cloned()
}

fn pair(source: &str, path: &str) -> Option<(String, String)> {
    Some((source.to_string(), path.to_string()))
}

#[test]
fn tree_of_the_greeting() {
    let rules = Convention::new("ext", "index", '/').unwrap();
    let files = vec![file("greet/index.ext", "return 'hi'"), file("greet/extra.ext", "return 1")];
    let map = match resolve_tree(&files, &rules) {
        Ok(map) => map,
        Err(error) => panic!("{:?}", error),
    };
    assert_eq!(map.len(), 2);
    assert_eq!(entry(&map, "greet"), pair("return 'hi'", "greet/index.ext"));
    assert_eq!(entry(&map, "greet.extra"), pair("return 1", "greet/extra.ext"));
    assert_eq!(entry(&map, "missing"), None);
}

#[test]
fn lua_tree_of_the_greeting() {
    let map = modules(&vec![file("greet/init.lua", "return 'hi'"), file("greet/extra.lua", "return 1")]);
    assert_eq!(map.len(), 2);
    assert_eq!(entry(&map, "greet"), pair("return 'hi'", "greet/init.lua"));
    assert_eq!(entry(&map, "greet.extra"), pair("return 1", "greet/extra.lua"));
}

#[test]
fn display_path_is_the_relative_path() {
    let files = vec![
        file("a/b/c.lua", "c"),
        file("a/init.lua", "a"),
        file("top.lua", "top"),
        file("a/b/init.lua", "b"),
    ];
    let rules = lua();
    let map = modules(&files);
    for f in files.iter() {
        let name = rules.module_name(&f.path).unwrap();
        assert_eq!(entry(&map, &name), Some((f.text.clone(), f.path.clone())));
    }
    assert_eq!(map.len(), files.len());
}

#[test]
fn same_tree_gives_same_modules() {
    let files = vec![file("a/b.lua", "1"), file("a/init.lua", "2"), file("c.lua", "3")];
    let one = modules(&files);
    let two = modules(&files);
    for name in ["a.b", "a", "c", "missing"] {
        assert_eq!(entry(&one, name), entry(&two, name));
    }
    assert_eq!(one.len(), two.len());
}

#[test]
fn order_of_the_files_does_not_matter() {
    let forward = vec![file("a/b.lua", "1"), file("a/init.lua", "2"), file("c.lua", "3")];
    let backward = vec![file("c.lua", "3"), file("a/init.lua", "2"), file("a/b.lua", "1")];
    let one = modules(&forward);
    let two = modules(&backward);
    assert_eq!(one.len(), 3);
    assert_eq!(two.len(), 3);
    for name in ["a.b", "a", "c"] {
        assert!(entry(&one, name).is_some());
        assert_eq!(entry(&one, name), entry(&two, name));
    }
}

#[test]
fn files_that_are_no_source_files_are_passed_over() {
    let map = modules(&vec![
        file("readme.md", "text"),
        file("a/b.lua", "1"),
        file("a/b.txt", "2"),
        file("a/.lua", "3"),
        file("lua", "4"),
    ]);
    assert_eq!(map.len(), 1);
    assert_eq!(entry(&map, "a.b"), pair("1", "a/b.lua"));
}

#[test]
fn empty_tree_has_no_modules() {
    let map = modules(&Vec::new());
    assert_eq!(map.len(), 0);
    assert_eq!(entry(&map, ""), None);
}

#[test]
fn root_index_file_is_the_module_without_name() {
    let map = modules(&vec![file("init.lua", "return 0")]);
    assert_eq!(map.len(), 1);
    assert_eq!(entry(&map, ""), pair("return 0", "init.lua"));
    assert_eq!(entry(&map, "init"), None);
}

#[test]
fn index_file_and_plain_file_collide() {
    let files = vec![file("a/init.lua", "1"), file("a.lua", "2")];
    assert_eq!(
        resolve_tree(&files, &lua()).err(),
        Some(TreeError::Collision {
            name: "a".to_string(),
            first: "a/init.lua".to_string(),
            second: "a.lua".to_string(),
        })
    );
}

#[test]
fn dotted_stem_and_nested_file_collide() {
    let files = vec![file("x.lua", "0"), file("a.b.lua", "1"), file("y.txt", "0"), file("a/b.lua", "2")];
    assert_eq!(
        resolve_tree(&files, &lua()).err(),
        Some(TreeError::Collision {
            name: "a.b".to_string(),
            first: "a.b.lua".to_string(),
            second: "a/b.lua".to_string(),
        })
    );
}

#[test]
fn file_listed_twice_collides_with_itself() {
    let files = vec![file("a.lua", "1"), file("a.lua", "1")];
    assert_eq!(
        resolve_tree(&files, &lua()).err(),
        Some(TreeError::Collision {
            name: "a".to_string(),
            first: "a.lua".to_string(),
            second: "a.lua".to_string(),
        })
    );
}

#[test]
fn first_collision_is_reported() {
    let files = vec![
        file("p.lua", "1"),
        file("q.lua", "2"),
        file("q/init.lua", "3"),
        file("p/init.lua", "4"),
    ];
    assert_eq!(
        resolve_tree(&files, &lua()).err(),
        Some(TreeError::Collision {
            name: "q".to_string(),
            first: "q.lua".to_string(),
            second: "q/init.lua".to_string(),
        })
    );
}

#[test]
fn collision_does_not_depend_on_the_order() {
    let one = vec![file("a/init.lua", "1"), file("b.lua", "0"), file("a.lua", "2")];
    let two = vec![file("a.lua", "2"), file("a/init.lua", "1"), file("b.lua", "0")];
    assert!(resolve_tree(&one, &lua()).is_err());
    assert!(resolve_tree(&two, &lua()).is_err());
}

#[test]
fn files_that_do_not_qualify_never_collide() {
    let map = modules(&vec![file("a.txt", "1"), file("a.txt", "1"), file("a.lua", "2")]);
    assert_eq!(map.len(), 1);
    assert_eq!(entry(&map, "a"), pair("2", "a.lua"));
}
