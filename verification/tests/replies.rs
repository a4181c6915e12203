use hbb_common::config::{
    caches_url, parse_app_config, picture_downloads, picture_path, try_parse_app_config,
    try_picture_downloads, ConfigError,
};
use hbb_common::report::{
    consumable_levels, consumable_status_url, min_printer_levels, printer_ports, terminal_dates,
    terminal_mac_url, terminal_save_url, try_consumable_levels, try_printer_ports,
    try_terminal_dates, Printer, ReplyError, PRINTER_DEF,
};
use serde_json::Value;

#[test]
fn app_config_reads_platform_and_url() {
    let text = r#"{"platform":"qd","url":"https://example.org"}"#;
    let expected = ("qd".to_string(), "https://example.org".to_string());
    assert_eq!(parse_app_config(text), expected);
    assert_eq!(try_parse_app_config(text), Ok(expected));
}

#[test]
fn app_config_errors() {
    assert_eq!(try_parse_app_config("not json"), Err(ConfigError::Malformed));
    assert_eq!(try_parse_app_config(r#"{"platform":1,"url":"x"}"#), Err(ConfigError::Malformed));
    assert_eq!(try_parse_app_config(r#"{"url":"x"}"#), Err(ConfigError::MissingPlatform));
    assert_eq!(try_parse_app_config(r#"{"platform":"p"}"#), Err(ConfigError::MissingUrl));
}

#[test]
fn terminal_dates_read_data_fields() {
    let reply = r#"{"code":200,"data":{"uptDateTime":"2024-05-01 10:00:00","pubDate":"2024-05-01","uptDate":"2024-04-30","id":17}}"#;
    let t = terminal_dates(reply);
    assert_eq!(t.upt_date_time, "2024-05-01 10:00:00");
    assert_eq!(t.pub_date, "2024-05-01");
    assert_eq!(t.upt_date, "2024-04-30");
    assert_eq!(t.pub_date_time, "null");
    assert_eq!(t.id, "17");
}

#[test]
fn terminal_dates_without_data_are_null() {
    let t = try_terminal_dates("[1,2]").ok().unwrap();
    assert_eq!(t.id, "null");
    assert_eq!(t.pub_date, "null");
    assert!(matches!(try_terminal_dates("{oops"), Err(ReplyError::InvalidJson)));
}

#[test]
fn printer_ports_from_devices() {
    let reply = r#"{"printers":[{"portName":"USB001","model":"x"},{"portName":"COM2"},{"other":1},5]}"#;
    let ports = printer_ports(reply);
    assert_eq!(try_printer_ports(reply), Ok(ports.clone()));
    assert_eq!(ports, vec!["USB001".to_string(), "COM2".to_string(), "null".to_string(), "null".to_string()]);
}

#[test]
fn printer_ports_errors() {
    assert!(matches!(try_printer_ports("[]"), Err(ReplyError::NotAnObject)));
    assert!(matches!(try_printer_ports("{}"), Err(ReplyError::MissingMember)));
    assert!(matches!(try_printer_ports(r#"{"printers":{"a":1}}"#), Err(ReplyError::NotAnArray)));
    assert!(matches!(try_printer_ports(r#"{"printers":null}"#), Err(ReplyError::NotAnArray)));
}

#[test]
fn consumable_levels_from_status() {
    let reply = r#"[
        {"ConsumableTypeEnum":"ink","ConsumablePercentageLevelRemaining":"42"},
        {"ConsumableTypeEnum":"paper","ConsumablePercentageLevelRemaining":80},
        {"ConsumableTypeEnum":"toner","ConsumablePercentageLevelRemaining":"3"}
    ]"#;
    assert_eq!(consumable_levels(reply), (42, 80));
    assert_eq!(try_consumable_levels(reply), Ok((42, 80)));
}

#[test]
fn consumable_levels_defaults_and_bad_numbers() {
    assert_eq!(consumable_levels("[]"), (PRINTER_DEF, PRINTER_DEF));
    let reply = r#"[{"ConsumableTypeEnum":"ink","ConsumablePercentageLevelRemaining":"low"}]"#;
    assert_eq!(consumable_levels(reply), (0, PRINTER_DEF));
    let later = r#"[{"ConsumableTypeEnum":"ink","ConsumablePercentageLevelRemaining":1},{"ConsumableTypeEnum":"ink","ConsumablePercentageLevelRemaining":2}]"#;
    assert_eq!(consumable_levels(later), (2, PRINTER_DEF));
    assert_eq!(try_consumable_levels("{}"), Err(ReplyError::NotAnArray));
}

#[test]
fn minimum_levels_over_printers() {
    let printers = vec![
        Printer::new(50, 70, "USB001".to_string()),
        Printer::new(30, 90, "USB002".to_string()),
    ];
    assert_eq!(min_printer_levels(&printers), (30, 70));
    assert_eq!(min_printer_levels(&Vec::new()), (PRINTER_DEF, PRINTER_DEF));
    let high = vec![Printer::new(12000, 10000, "p".to_string())];
    assert_eq!(min_printer_levels(&high), (PRINTER_DEF, PRINTER_DEF));
}

#[test]
fn printer_accessors() {
    let p = Printer::new(1, 2, "LPT1".to_string());
    assert_eq!(p.ink(), 1);
    assert_eq!(p.paper(), 2);
    assert_eq!(p.port_name(), "LPT1");
}

#[test]
fn picture_downloads_for_platform() {
    let reply = r#"{"data":[
        {"code":"other","loginLogoAttachmentUrl":"http://x/0.png"},
        {"code":"qd","loginLogoAttachmentUrl":"http://x/1.png","loginScreenAttachmentUrl":"http://x/2.png",
         "homeLogoAttachmentUrl":"http://x/3.png","naviBackgroundAttachmentUrl":"http://x/4.png",
         "naviTitleAttachmentUrl":"http://x/5.png","homeLeftAttachmentUrl":"http://x/6.png"}
    ]}"#;
    let d = picture_downloads("qd", reply);
    assert_eq!(try_picture_downloads("qd", reply), Ok(d.clone()));
    assert_eq!(d.len(), 7);
    assert_eq!(d[0], ("http://x/1.png".to_string(), "login_logo".to_string()));
    assert_eq!(d[3], ("http://x/4.png".to_string(), "background".to_string()));
    assert_eq!(d[6], ("null".to_string(), "table".to_string()));
    assert_eq!(picture_downloads("none", reply).len(), 0);
    assert!(matches!(try_picture_downloads("qd", r#"{"code":1}"#), Err(ReplyError::MissingMember)));
    assert!(matches!(try_picture_downloads("qd", "[]"), Err(ReplyError::NotAnObject)));
    assert!(matches!(try_picture_downloads("qd", r#"{"data":3}"#), Err(ReplyError::NotAnArray)));
}

#[test]
fn addresses() {
    assert_eq!(picture_path("title"), "src/ui/pic/title.png");
    assert_eq!(caches_url("http://h:1"), "http://h:1/api/platform/caches");
    assert_eq!(terminal_mac_url("http://h"), "http://h/api/terminal/mac");
    assert_eq!(terminal_save_url("http://h"), "http://h/api/terminal/save");
    assert_eq!(consumable_status_url("USB001"), "https://localhost:8081/status/consumable/USB001");
}

/// What the reporting round sends for a member: the member of the one parsed
/// reply written out, with its double quotes taken out.
fn sent_text(reply: &str, outer: &str, inner: &str) -> String {
    let v: Value = serde_json::from_str(reply).unwrap();
    v[outer][inner].to_string().replace("\"", "")
}

#[test]
fn floats_are_read_from_one_parse() {
    let reply = r#"{"data":{"id":90.821963965026581,"pubDate":1e400000000000000000000000000000}}"#;
    if let Ok(t) = try_terminal_dates(reply) {
        assert_eq!(t.id, sent_text(reply, "data", "id"));
    }
    let reply = r#"{"data":{"id":90.821963965026581,"uptDate":0.1e-7}}"#;
    let t = terminal_dates(reply);
    assert_eq!(t.id, sent_text(reply, "data", "id"));
    assert_eq!(t.upt_date, sent_text(reply, "data", "uptDate"));
    let devices = r#"{"printers":[{"portName":90.821963965026581}]}"#;
    let ports = printer_ports(devices);
    let v: Value = serde_json::from_str(devices).unwrap();
    assert_eq!(ports, vec![v["printers"][0]["portName"].to_string()]);
}

#[test]
fn float_platform_codes_match_as_written() {
    let reply = r#"{"data":[{"code":90.821963965026581,"loginLogoAttachmentUrl":2.5}]}"#;
    let v: Value = serde_json::from_str(reply).unwrap();
    let code = v["data"][0]["code"].to_string();
    let d = picture_downloads(&code, reply);
    assert_eq!(d.len(), 7);
    assert_eq!(d[0], ("2.5".to_string(), "login_logo".to_string()));
}
