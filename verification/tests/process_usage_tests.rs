use clock_rs::now_playing::Poll;
use clock_rs::process_usage::{
    display_process_name, ps_line_fields, ps_output, usage_prefix, Metric, ProcessUsage,
};

const SEC: u128 = 1_000_000_000;

#[test]
fn metric_labels() {
    assert_eq!(Metric::Cpu.label(), "CPU");
    assert_eq!(Metric::Ram.label(), "RAM");
}

#[test]
fn process_names() {
    assert_eq!(display_process_name("/usr/bin/firefox --new-tab"), "firefox");
    assert_eq!(display_process_name("  cargo build  "), "cargo");
    assert_eq!(display_process_name("/opt/app/"), "app");
    assert_eq!(display_process_name("///"), "///");
    assert_eq!(display_process_name("   "), "");
    assert_eq!(display_process_name(""), "");
    assert_eq!(display_process_name("plain"), "plain");
}

#[test]
fn prefix_text() {
    assert_eq!(usage_prefix("firefox", Metric::Cpu), "⚠ firefox CPU ");
    assert_eq!(usage_prefix("a b", Metric::Ram), "⚠ a b RAM ");
}

#[test]
fn ps_results() {
    assert_eq!(ps_output(true, "out", "", "0"), Ok("out".to_string()));
    assert_eq!(ps_output(false, "", "", "exit status: 1"), Err("ps exited with status exit status: 1".to_string()));
}

#[test]
fn usage_schedule() {
    let mut pu: ProcessUsage<u32> = ProcessUsage::new();
    assert!(pu.line_data().is_none() && !pu.is_loading());
    assert!(pu.update_if_due(None, None));
    assert!(pu.is_loading());
    assert!(!pu.update_if_due(Some(Poll::Empty), Some(10 * SEC)));
    assert!(!pu.update_if_due(Some(Poll::Received(Ok(Some(7)))), Some(SEC)));
    assert_eq!(pu.line_data(), Some(&7));
    assert!(!pu.update_if_due(None, Some(2 * SEC - 1)));
    assert!(pu.update_if_due(None, Some(2 * SEC)));
    pu.update_if_due(Some(Poll::Received(Err("bad".to_string()))), Some(0));
    assert!(pu.line_data().is_none());
    assert!(!pu.is_loading());
    pu.update_if_due(None, Some(3 * SEC));
    pu.update_if_due(Some(Poll::Received(Ok(Some(3)))), Some(0));
    pu.update_if_due(None, Some(3 * SEC));
    pu.update_if_due(Some(Poll::Disconnected), Some(0));
    assert!(pu.line_data().is_none());
}

fn fields(name: &str, cpu: &str, ram: &str) -> Option<(String, String, String)> {
    Some((name.to_string(), cpu.to_string(), ram.to_string()))
}

#[test]
fn ps_lines() {
    assert_eq!(ps_line_fields("/usr/bin/firefox --x  12.5  3,1"), fields("firefox", "12.5", "3,1"));
    assert_eq!(ps_line_fields("  cargo   build  99.0 0.5 \n"), fields("cargo", "99.0", "0.5"));
    assert_eq!(ps_line_fields("top 1.0"), None);
    assert_eq!(ps_line_fields("/ 1.0 2.0"), fields("/", "1.0", "2.0"));
    assert_eq!(ps_line_fields(""), None);
    assert_eq!(ps_line_fields("a b c d"), fields("a", "c", "d"));
}
