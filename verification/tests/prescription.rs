use avro_phonetic::prescription::{describe_required, validation_errors, MedicineBox, MedicineData};
use avro_phonetic::text::collapse_whitespace;

fn medicine(id: u64, brand: &str) -> MedicineData {
    MedicineData::new(
        id,
        brand.to_string(),
        String::new(),
        "500 mg".to_string(),
        "Tablet".to_string(),
        String::new(),
        "1+0+1".to_string(),
        String::new(),
        String::new(),
    )
}

fn list(ids: &[u64]) -> MedicineBox {
    let mut list = MedicineBox::new();
    for id in ids {
        list.append(medicine(*id, &format!("m{}", id)));
    }
    list
}

fn ids(list: &MedicineBox) -> Vec<u64> {
    list.rows.iter().map(|row| row.id).collect()
}

#[test]
fn medicine_record_keeps_its_fields() {
    let m = MedicineData::new(
        7,
        "Napa".to_string(),
        "Paracetamol".to_string(),
        "500 mg".to_string(),
        "Tablet".to_string(),
        "Beximco".to_string(),
        "1+0+1".to_string(),
        "after meal".to_string(),
        "5 days".to_string(),
    );
    assert_eq!(m.id, 7);
    assert_eq!(m.brand_name, "Napa");
    assert_eq!(m.generic_name, "Paracetamol");
    assert_eq!(m.strength, "500 mg");
    assert_eq!(m.formulation, "Tablet");
    assert_eq!(m.manufacturer, "Beximco");
    assert_eq!(m.dosing, "1+0+1");
    assert_eq!(m.instructions, "after meal");
    assert_eq!(m.duration, "5 days");
}

#[test]
fn list_appends_at_the_end() {
    let mut l = MedicineBox::new();
    assert!(l.rows.is_empty());
    l.append(medicine(3, "a"));
    l.append(medicine(1, "b"));
    assert_eq!(ids(&l), vec![3, 1]);
    assert_eq!(l.rows[1].brand_name, "b");
}

#[test]
fn list_finds_the_first_row_with_an_id() {
    let l = list(&[5, 7, 5, 9]);
    assert_eq!(l.position(5), Some(0));
    assert_eq!(l.position(7), Some(1));
    assert_eq!(l.position(9), Some(3));
    assert_eq!(l.position(4), None);
    assert_eq!(MedicineBox::new().position(1), None);
}

#[test]
fn list_deletes_by_id() {
    let mut l = list(&[1, 2, 3]);
    l.delete(2);
    assert_eq!(ids(&l), vec![1, 3]);
    l.delete(2);
    assert_eq!(ids(&l), vec![1, 3]);
    l.delete(1);
    l.delete(3);
    assert!(l.rows.is_empty());
    l.delete(3);
    assert!(l.rows.is_empty());
    let mut twice = list(&[4, 4]);
    twice.rows[1].brand_name = "second".to_string();
    twice.delete(4);
    assert_eq!(twice.rows.len(), 1);
    assert_eq!(twice.rows[0].brand_name, "second");
}

#[test]
fn list_moves_rows_up_and_down() {
    let mut l = list(&[1, 2, 3]);
    l.move_up(3);
    assert_eq!(ids(&l), vec![1, 3, 2]);
    l.move_up(3);
    assert_eq!(ids(&l), vec![3, 1, 2]);
    l.move_up(3);
    assert_eq!(ids(&l), vec![3, 1, 2]);
    l.move_down(3);
    assert_eq!(ids(&l), vec![1, 3, 2]);
    l.move_down(3);
    assert_eq!(ids(&l), vec![1, 2, 3]);
    l.move_down(3);
    assert_eq!(ids(&l), vec![1, 2, 3]);
    l.move_up(8);
    l.move_down(8);
    assert_eq!(ids(&l), vec![1, 2, 3]);
    assert_eq!(l.rows[0].brand_name, "m1");
    let mut one = list(&[6]);
    one.move_up(6);
    one.move_down(6);
    assert_eq!(ids(&one), vec![6]);
}

#[test]
fn required_fields_are_named() {
    assert_eq!(validation_errors("Napa", "500 mg", "Tablet", "1+0+1"), None);
    assert_eq!(
        validation_errors("", "500 mg", "Tablet", "1+0+1"),
        Some("BRAND NAME is required".to_string())
    );
    assert_eq!(
        validation_errors("Napa", "500 mg", "Tablet", ""),
        Some("DOSING is required".to_string())
    );
    assert_eq!(
        validation_errors("", "", "Tablet", "1+0+1"),
        Some("BRAND NAME and STRENGTH are required".to_string())
    );
    assert_eq!(
        validation_errors("", "", "Tablet", ""),
        Some("BRAND NAME, STRENGTH and DOSING are required".to_string())
    );
    assert_eq!(
        validation_errors("", "", "", ""),
        Some("BRAND NAME, STRENGTH, FORMULATION and DOSING are required".to_string())
    );
    assert_eq!(validation_errors(" ", " ", " ", " "), None);
}

#[test]
fn required_message_lists_any_number_of_fields() {
    let items = |names: &[&str]| names.iter().map(|s| s.to_string()).collect::<Vec<String>>();
    assert_eq!(describe_required(&items(&[])), None);
    assert_eq!(describe_required(&items(&["A"])), Some("A is required".to_string()));
    assert_eq!(describe_required(&items(&["A", "B"])), Some("A and B are required".to_string()));
    assert_eq!(
        describe_required(&items(&["A", "B", "C", "D", "E"])),
        Some("A, B, C, D and E are required".to_string())
    );
}

#[test]
fn white_space_is_collapsed() {
    assert_eq!(collapse_whitespace("  Napa   Extra \t 500 "), "Napa Extra 500");
    assert_eq!(collapse_whitespace(""), "");
    assert_eq!(collapse_whitespace(" \n\t "), "");
    assert_eq!(collapse_whitespace("a"), "a");
    assert_eq!(collapse_whitespace(" a"), "a");
    assert_eq!(collapse_whitespace("a "), "a");
    assert_eq!(collapse_whitespace("a\u{3000}b"), "a b");
    assert_eq!(collapse_whitespace("নাপা  এক্সট্রা"), "নাপা এক্সট্রা");
    for text in ["", " ", "a b", "  a  b  ", "\ta\nb\r\nc", "x\u{a0}y\u{2003}z", "one", " one two  three "] {
        let expected = text.split_whitespace().collect::<Vec<&str>>().join(" ");
        assert_eq!(collapse_whitespace(text), expected);
    }
}

fn add(list: &mut MedicineBox, id: u64, brand: &str, strength: &str, formulation: &str, dosing: &str) -> Result<(), String> {
    list.add(
        id,
        brand,
        "Paracetamol".to_string(),
        strength.to_string(),
        formulation.to_string(),
        "Beximco".to_string(),
        dosing.to_string(),
        "after meal".to_string(),
        "5 days".to_string(),
    )
}

#[test]
fn complete_medicine_is_added() {
    let mut l = list(&[1]);
    assert_eq!(add(&mut l, 2, "  Napa   Extra ", "500 mg", "Tablet", "1+0+1"), Ok(()));
    assert_eq!(ids(&l), vec![1, 2]);
    let row = &l.rows[1];
    assert_eq!(row.brand_name, "Napa Extra");
    assert_eq!(row.generic_name, "Paracetamol");
    assert_eq!(row.strength, "500 mg");
    assert_eq!(row.formulation, "Tablet");
    assert_eq!(row.manufacturer, "Beximco");
    assert_eq!(row.dosing, "1+0+1");
    assert_eq!(row.instructions, "after meal");
    assert_eq!(row.duration, "5 days");
    assert_eq!(l.rows[0].brand_name, "m1");
}

#[test]
fn incomplete_medicine_is_refused() {
    let mut l = list(&[1]);
    assert_eq!(
        add(&mut l, 2, "   ", "500 mg", "Tablet", "1+0+1"),
        Err("BRAND NAME is required".to_string())
    );
    assert_eq!(
        add(&mut l, 2, "Napa", "", "", "1+0+1"),
        Err("STRENGTH and FORMULATION are required".to_string())
    );
    assert_eq!(
        add(&mut l, 2, "", "", "", ""),
        Err("BRAND NAME, STRENGTH, FORMULATION and DOSING are required".to_string())
    );
    assert_eq!(ids(&l), vec![1]);
    // Only the brand name is trimmed.
    assert_eq!(add(&mut l, 3, "Napa", " ", " ", " "), Ok(()));
    assert_eq!(ids(&l), vec![1, 3]);
}
