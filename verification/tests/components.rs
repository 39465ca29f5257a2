use thermite::jump_table::JumpTable;
use thermite::runner::Runner;

#[test]
fn jump_table_lookup() {
    let mut table = JumpTable::new();
    assert_eq!(table.get(&"main".to_string()), None);
    table.insert("main".to_string(), 0);
    table.insert("loop".to_string(), 4);
    assert_eq!(table.get(&"main".to_string()), Some(0));
    assert_eq!(table.get(&"loop".to_string()), Some(4));
    assert_eq!(table.get(&"end".to_string()), None);
}

#[test]
fn jump_table_overwrites_on_collision() {
    let mut table = JumpTable::new();
    table.insert("main".to_string(), 0);
    table.insert("main".to_string(), 7);
    assert_eq!(table.get(&"main".to_string()), Some(7));
}

#[test]
fn runner_holds_the_filename() {
    let runner = Runner::new("program.asm".to_string());
    assert_eq!(runner.filename, "program.asm");
}
