use card_test::card_info::get_card_info;

#[test]
fn get_card_info_apple() {
    let info = get_card_info("S001-A-001");
    assert_eq!(info.name, "APPLe");
    assert_eq!(info.ack, 1200);
    assert_eq!(info.cost, 1);
}

#[test]
fn get_card_info_vertin() {
    let info = get_card_info("NAAI-A-001");
    assert_eq!(info.name, "Vertin 维尔汀");
    assert_eq!(info.ack, 0);
    assert_eq!(info.cost, 0);
}

#[test]
fn get_card_info_unknown_code() {
    let info = get_card_info("S001-A-002");
    assert_eq!(info.name, "Unknown");
    assert_eq!(info.ack, 0);
    assert_eq!(info.cost, 0);
}

#[test]
fn get_card_info_empty_code() {
    let info = get_card_info("");
    assert_eq!(info.name, "Unknown");
    assert_eq!(info.ack, 0);
    assert_eq!(info.cost, 0);
}

#[test]
fn get_card_info_code_is_case_sensitive() {
    let info = get_card_info("s001-a-001");
    assert_eq!(info.name, "Unknown");
}
