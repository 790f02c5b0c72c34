use hack_assembler::symbol_table::SymbolTable;

#[test]
fn it_works() {
    let mut table = SymbolTable::new();
    table.add_entry("sum", 5);
    assert_eq!(table.contains("sum"), true);
    assert_eq!(table.get_address("sum"), 5);
    assert_eq!(table.contains("empty"), false);
}

#[test]
fn reserved_names_are_bound() {
    let table = SymbolTable::new();
    for i in 0..16u16 {
        assert_eq!(table.get_address(&format!("R{}", i)), i);
    }
    assert_eq!(table.get_address("SP"), 0);
    assert_eq!(table.get_address("LCL"), 1);
    assert_eq!(table.get_address("ARG"), 2);
    assert_eq!(table.get_address("THIS"), 3);
    assert_eq!(table.get_address("THAT"), 4);
    assert_eq!(table.get_address("SCREEN"), 16384);
    assert_eq!(table.get_address("KBD"), 24576);
    assert_eq!(table.entries.len(), 23);
    assert!(!table.contains("R16"));
}

#[test]
fn add_entry_overwrites_and_repeats_safely() {
    let mut table = SymbolTable::new();
    table.add_entry("LOOP", 7);
    table.add_entry("LOOP", 7);
    assert_eq!(table.get_address("LOOP"), 7);
    assert_eq!(table.entries.len(), 24);
    table.add_entry("LOOP", 9);
    assert_eq!(table.get_address("LOOP"), 9);
    assert_eq!(table.entries.len(), 24);
}
