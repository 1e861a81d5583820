use novelai::novel::CustomRealm;
use novelai::wizard::Wizard;

#[test]
fn wizard_opens_on_first_page() {
    let w = Wizard::open();
    assert_eq!(w.page, 0);
    assert_eq!(w.count_buf, "20");
    assert_eq!(w.words_buf, "3000");
    assert!(w.visible);
    assert!(w.realm_dialog.is_none());
}

#[test]
fn wizard_pages_stay_in_range() {
    let mut w = Wizard::open();
    w.prev_page();
    assert_eq!(w.page, 0);
    for _ in 0..5 {
        w.next_page();
    }
    assert_eq!(w.page, 3);
    w.prev_page();
    assert_eq!(w.page, 2);
    w.cancel();
    assert!(!w.visible);
}

#[test]
fn wizard_realm_dialog() {
    let mut w = Wizard::open();
    w.start_new_realm();
    assert_eq!(w.realm_dialog.as_ref().unwrap().order, 1);
    w.realm_dialog.as_mut().unwrap().name = "练气".to_string();
    w.save_realm_dialog();
    assert!(w.realm_dialog.is_none());
    w.project.custom_realms.push(CustomRealm { order: 7, name: "化神".to_string(), description: String::new(), sub_levels: String::new() });
    w.start_new_realm();
    assert_eq!(w.realm_dialog.as_ref().unwrap().order, 8);
    w.close_realm_dialog();
    assert_eq!(w.project.custom_realms.len(), 2);
    w.remove_realm(1, "练气");
    assert_eq!(w.project.custom_realms.len(), 1);
}

#[test]
fn choosing_a_template_card() {
    let names = vec!["修仙问道".to_string(), "都市异能".to_string()];
    let mut w = Wizard::open();
    w.choose_template("都市异能", &names);
    assert_eq!(w.project.template, "都市异能");
    w.choose_template("自定义", &names);
    assert_eq!(w.project.template, "");
    w.project.template = "克苏鲁".to_string();
    w.choose_template("自定义", &names);
    assert_eq!(w.project.template, "克苏鲁");
    assert_eq!(w.page, 0);
}
