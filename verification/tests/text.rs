use host_discovery::config::{listen_window_ms, round_wait_ms};
use host_discovery::text::{contains_text, mac_text};
use host_discovery::{MacAddr, ScanConfig, ScanError};

#[test]
fn text_search() {
    assert!(contains_text("operation requires root", "requires"));
    assert!(contains_text("requires", "requires"));
    assert!(contains_text("xrequires", "requires"));
    assert!(!contains_text("require", "requires"));
    assert!(!contains_text("Requires", "requires"));
    assert!(contains_text("anything", ""));
    assert!(contains_text("", ""));
    assert!(!contains_text("", "a"));
    assert!(contains_text("aab", "ab"));
    assert!(contains_text("Zugriff verweigert: Accès refusé", "Accès"));
    assert!(!contains_text("ab", "abc"));
}

#[test]
fn text_search_agrees_with_std() {
    let hays = ["", "a", "abcabc", "permission denied", "ünïcödé text", "NpcapNpcap"];
    let needles = ["", "a", "bc", "cab", "denied", "cöd", "pN", "x", "abcabcabc"];
    for hay in hays {
        for needle in needles {
            assert_eq!(contains_text(hay, needle), hay.contains(needle));
        }
    }
}

#[test]
fn hardware_address_as_text() {
    assert_eq!(mac_text(MacAddr(0, 0x1c, 0xb3, 0, 0, 0)), "00:1c:b3:00:00:00");
    assert_eq!(mac_text(MacAddr(0xff, 0xff, 0xff, 0xff, 0xff, 0xff)), "ff:ff:ff:ff:ff:ff");
    assert_eq!(mac_text(MacAddr(0x01, 0x23, 0x45, 0x67, 0x89, 0xab)), "01:23:45:67:89:ab");
    assert_eq!(mac_text(MacAddr(0xcd, 0xef, 0x0a, 0x90, 0x09, 0xa0)), "cd:ef:0a:90:09:a0");
}

#[test]
fn hardware_address_text_agrees_with_packet_crate() {
    for seed in 0u32..300 {
        let b = seed.wrapping_mul(2_654_435_761).to_be_bytes();
        let mac = MacAddr(b[0], b[1], b[2], b[3], b[0] ^ b[2], b[1] ^ b[3]);
        let theirs = pnet::util::MacAddr(mac.0, mac.1, mac.2, mac.3, mac.4, mac.5);
        assert_eq!(mac_text(mac), theirs.to_string());
    }
}

#[test]
fn link_failure_that_points_to_missing_rights() {
    for detail in [
        "Operation requires elevated rights",
        "permission denied",
        "Access is denied. (os error 5)",
        "Npcap is not installed",
        "WinPcap driver missing",
    ] {
        let error = ScanError::channel_open(detail);
        assert!(matches!(
            &error,
            ScanError::ChannelOpen { detail: kept, needs_privilege: true } if kept == detail
        ));
        let message = error.message();
        assert!(message.starts_with("Failed to open network interface for ARP scanning.\n\n"));
        assert!(message.contains("https://npcap.com/#download"));
        assert!(message.contains("Run this program as Administrator"));
        assert!(message.ends_with(&format!("Original error: {}", detail)));
    }
}

#[test]
fn privilege_message_in_full() {
    let error = ScanError::channel_open("permission denied");
    assert_eq!(
        error.message(),
        "Failed to open network interface for ARP scanning.\n\n\
         On Windows, this requires Npcap to be installed:\n\
         1. Download from: https://npcap.com/#download\n\
         2. Install with 'WinPcap API-compatible Mode' checked\n\
         3. Run this program as Administrator\n\n\
         Original error: permission denied"
    );
}

#[test]
fn other_link_failures_are_reported_plainly() {
    for detail in ["No such device", "Permission denied", "access denied", "", "npcap"] {
        let error = ScanError::channel_open(detail);
        assert!(matches!(&error, ScanError::ChannelOpen { needs_privilege: false, .. }));
        assert_eq!(error.message(), format!("Failed to open datalink channel: {}", detail));
    }
}

#[test]
fn unsupported_channel_message() {
    assert_eq!(ScanError::UnsupportedChannel.message(), "Unsupported channel type");
}

#[test]
fn receiver_listens_for_all_rounds_and_the_grace_period() {
    assert_eq!(listen_window_ms(3, 1500), 5000);
    assert_eq!(listen_window_ms(0, 1500), 500);
    assert_eq!(listen_window_ms(1, 0), 500);
    assert_eq!(listen_window_ms(2, 250), 1000);
    assert_eq!(listen_window_ms(u32::MAX, u64::MAX), u64::MAX);
    assert_eq!(listen_window_ms(1, u64::MAX - 499), u64::MAX);
    assert_eq!(listen_window_ms(1, u64::MAX - 500), u64::MAX);
    assert_eq!(listen_window_ms(1, u64::MAX - 501), u64::MAX - 1);
}

#[test]
fn round_waits_out_what_is_left() {
    assert_eq!(round_wait_ms(1500, 0), 1500);
    assert_eq!(round_wait_ms(1500, 20), 1480);
    assert_eq!(round_wait_ms(1500, 1500), 0);
    assert_eq!(round_wait_ms(1500, 9000), 0);
    assert_eq!(round_wait_ms(0, 0), 0);
}

#[test]
fn default_tunables() {
    let config = ScanConfig::default();
    assert_eq!(config.arp_rounds, 3);
    assert_eq!(config.arp_timeout_ms, 1500);
    assert_eq!(config.ping_retries, 2);
    assert_eq!(config.ping_timeout_ms, 1000);
    assert_eq!(config.max_concurrent_pings, 50);
    assert_eq!(config.tcp_timeout_ms, 500);
    assert_eq!(config.max_concurrent_probes, 50);
    assert_eq!(config.tcp_ports.len(), 13);
    assert!(config.tcp_ports.contains(&80));
}
