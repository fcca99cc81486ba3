use lox_vm::symtable::{SymTable, TableError};
use lox_vm::value::Value;

fn num(x: f64) -> Value {
    Value::Number(x.to_bits())
}

fn below_three_quarters(table: &SymTable) -> bool {
    4 * table.used() < 3 * table.capacity()
}

/// Names whose searches start at the same slot of a table of eight slots.
fn colliding_names(count: usize) -> Vec<String> {
    let mut names = Vec::new();
    let mut i = 0;
    while names.len() < count {
        let name = format!("k{}", i);
        if SymTable::hash_key(&name) % 8 == 3 {
            names.push(name);
        }
        i += 1;
    }
    names
}

#[test]
fn symtable_test_size() {
    println!("size of symtable: {}", std::mem::size_of::<SymTable>());
    println!("size of <Option<(String, Value)>>: {}", std::mem::size_of::<Option<(String, Value)>>());
}

#[test]
fn hash_is_fnv1a() {
    assert_eq!(SymTable::hash_key(""), 0x811C9DC5);
    assert_eq!(SymTable::hash_key("a"), 0xE40C292C);
    assert_eq!(SymTable::hash_key("foobar"), 0xBF9CF968);
}

#[test]
fn a_fresh_table_is_empty() {
    let table = SymTable::new();
    assert_eq!(table.capacity(), 8);
    assert_eq!(table.used(), 0);
    assert_eq!(table.get("a"), None);
}

#[test]
fn get_after_set_gives_the_last_value() {
    let mut table = SymTable::new();
    assert!(!table.set("a".to_string(), num(1.0)));
    assert_eq!(table.get("a"), Some(num(1.0)));
    assert!(table.set("a".to_string(), Value::String("two".to_string())));
    assert_eq!(table.get("a"), Some(Value::String("two".to_string())));
    assert_eq!(table.used(), 1);
    assert_eq!(table.get("b"), None);
}

#[test]
fn get_after_delete_finds_nothing() {
    let mut table = SymTable::new();
    table.set("a".to_string(), num(1.0));
    assert_eq!(table.delete("a"), Ok(()));
    assert_eq!(table.get("a"), None);
    assert_eq!(table.used(), 1);
}

#[test]
fn delete_says_why_it_failed() {
    let mut table = SymTable::new();
    assert_eq!(table.delete("a"), Err(TableError::TableEmpty));
    table.set("b".to_string(), Value::Nil);
    assert_eq!(table.delete("a"), Err(TableError::KeyNotFound));
    assert_eq!(table.delete("b"), Ok(()));
    assert_eq!(table.delete("b"), Err(TableError::KeyNotFound));
}

#[test]
fn colliding_names_do_not_disturb_each_other() {
    let names = colliding_names(3);
    let mut table = SymTable::new();
    for (i, name) in names.iter().enumerate() {
        assert!(!table.set(name.clone(), num(i as f64)));
    }
    for (i, name) in names.iter().enumerate() {
        assert_eq!(table.get(name), Some(num(i as f64)));
    }
    assert_eq!(table.delete(&names[0]), Ok(()));
    assert_eq!(table.get(&names[0]), None);
    assert_eq!(table.get(&names[1]), Some(num(1.0)));
    assert_eq!(table.get(&names[2]), Some(num(2.0)));
    assert_eq!(table.delete(&names[1]), Ok(()));
    assert_eq!(table.get(&names[2]), Some(num(2.0)));
}

#[test]
fn a_deleted_name_can_be_set_again() {
    let names = colliding_names(3);
    let mut table = SymTable::new();
    for name in &names {
        table.set(name.clone(), Value::Bool(false));
    }
    assert_eq!(table.delete(&names[1]), Ok(()));
    assert!(!table.set(names[1].clone(), Value::Bool(true)));
    assert_eq!(table.get(&names[0]), Some(Value::Bool(false)));
    assert_eq!(table.get(&names[1]), Some(Value::Bool(true)));
    assert_eq!(table.get(&names[2]), Some(Value::Bool(false)));
    assert!(table.set(names[1].clone(), Value::Nil));
    assert_eq!(table.get(&names[1]), Some(Value::Nil));
}

#[test]
fn the_table_grows_at_three_quarters() {
    let mut table = SymTable::new();
    for i in 0..5 {
        table.set(format!("n{}", i), num(i as f64));
        assert_eq!(table.capacity(), 8);
        assert_eq!(table.used(), i + 1);
        assert!(below_three_quarters(&table));
    }
    table.set("n5".to_string(), num(5.0));
    assert_eq!(table.capacity(), 16);
    assert_eq!(table.used(), 6);
    assert!(below_three_quarters(&table));
    for i in 0..6 {
        assert_eq!(table.get(&format!("n{}", i)), Some(num(i as f64)));
    }
}

#[test]
fn growing_drops_the_tombstones() {
    let mut table = SymTable::new();
    for i in 0..5 {
        table.set(format!("n{}", i), Value::Nil);
    }
    for i in 0..4 {
        assert_eq!(table.delete(&format!("n{}", i)), Ok(()));
    }
    assert_eq!(table.used(), 5);
    table.set("last".to_string(), Value::Nil);
    assert_eq!(table.capacity(), 16);
    assert_eq!(table.used(), 2);
    assert_eq!(table.get("n4"), Some(Value::Nil));
    assert_eq!(table.get("last"), Some(Value::Nil));
    assert_eq!(table.get("n0"), None);
}

#[test]
fn many_operations_keep_the_load_low() {
    let mut table = SymTable::new();
    let names = colliding_names(40);
    for round in 0..3 {
        for (i, name) in names.iter().enumerate() {
            table.set(name.clone(), num((round * 100 + i) as f64));
            assert!(below_three_quarters(&table));
        }
        for (i, name) in names.iter().enumerate() {
            assert_eq!(table.get(name), Some(num((round * 100 + i) as f64)));
        }
        for (i, name) in names.iter().enumerate() {
            if i % 2 == 0 {
                assert_eq!(table.delete(name), Ok(()));
                assert!(below_three_quarters(&table));
            }
        }
        for (i, name) in names.iter().enumerate() {
            if i % 2 == 0 {
                assert_eq!(table.get(name), None);
            } else {
                assert_eq!(table.get(name), Some(num((round * 100 + i) as f64)));
            }
        }
    }
}
