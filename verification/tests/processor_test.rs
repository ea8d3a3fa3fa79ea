use std::collections::HashMap;
use bios_basic::process::ci_processor::{signature_at, AppKeyConfig};
use bios_basic::process::task_processor::{TaskProcessor, TaskStatusSlot};

#[test]
fn test_task_status_slot() {
    assert_eq!(TaskProcessor::status_slot(0), TaskStatusSlot::Low { offset: 0 });
    assert_eq!(TaskProcessor::status_slot(u32::MAX as u64), TaskStatusSlot::Low { offset: u32::MAX as u64 });
    assert_eq!(TaskProcessor::status_slot(u64::MAX), TaskStatusSlot::High { offset: 0 });
    assert_eq!(TaskProcessor::status_slot(18446744069414584320), TaskStatusSlot::High { offset: u32::MAX as u64 });
    let id = u32::MAX as u64 + 5;
    assert_eq!(TaskProcessor::status_slot(id), TaskStatusSlot::Split { quotient: 1, remainder: 5 });
    assert!(TaskProcessor::status_of_bits(TaskStatusSlot::Low { offset: 1 }, true, false));
    assert!(!TaskProcessor::status_of_bits(TaskStatusSlot::Split { quotient: 1, remainder: 1 }, true, false));
    assert!(TaskProcessor::status_of_bits(TaskStatusSlot::Split { quotient: 1, remainder: 1 }, true, true));
}

#[test]
fn test_app_key_config_default() {
    let conf = AppKeyConfig::default();
    assert_eq!(conf.head_key_date_flag, "Bios-Date");
    assert!(conf.ak.is_empty() && conf.sk.is_empty());
}

#[test]
fn test_signature_at() {
    let conf = AppKeyConfig { head_key_date_flag: "Bios-Date".to_string(), ak: "ak1".to_string(), sk: "sk1".to_string() };
    let date = "Mon, 01 Jan 2024 00:00:00 GMT";
    let header = signature_at(&conf, "GET", "/path", "b=2&a=1", vec![("X".to_string(), "1".to_string())], date).unwrap();
    assert_eq!(header.len(), 3);
    assert_eq!(header[0], ("X".to_string(), "1".to_string()));
    assert_eq!(header[1].0, "Authorization");
    assert!(header[1].1.starts_with("ak1:"));
    assert_eq!(header[2], ("Bios-Date".to_string(), date.to_string()));
    // the same request signs the same way; another query signs otherwise
    let again = signature_at(&conf, "GET", "/path", "a=1&b=2", vec![], date).unwrap();
    assert_eq!(again[0].1, header[1].1);
    let other = signature_at(&conf, "GET", "/path", "a=1", vec![], date).unwrap();
    assert_ne!(other[0].1, header[1].1);
    // base64 of the 64 hexadecimal digits of the HMAC-SHA256
    assert_eq!(header[1].1.len(), "ak1:".len() + 88);
}

#[test]
fn test_task_status_round_trip() {
    for (id, status) in [(7u64, true), (u32::MAX as u64 + 5, true), (u64::MAX - 3, true), (42, false)] {
        let mut bitmaps: HashMap<(u8, u64), bool> = HashMap::new();
        // another task's bits stay as they were
        bitmaps.insert((1, 8), true);
        let bits = TaskProcessor::status_bits(id);
        for b in &bits {
            bitmaps.insert(*b, status);
        }
        let read: Vec<bool> = bits.iter().map(|b| *bitmaps.get(b).unwrap_or(&false)).collect();
        let slot = TaskProcessor::status_slot(id);
        let second = if read.len() > 1 { read[1] } else { false };
        assert_eq!(TaskProcessor::status_of_bits(slot, read[0], second), status);
    }
    assert_eq!(TaskProcessor::status_bits(u32::MAX as u64 + 5), vec![(3, 1), (4, 5)]);
    assert_eq!(TaskProcessor::status_bits(u64::MAX), vec![(2, 0)]);
}
