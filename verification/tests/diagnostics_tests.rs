use zapretctl::diagnostics::{conflict_report, filter_dns_lines, is_flagged, CatalogEntry};
use zapretctl::status::ServiceStatus;

fn chars(s: &str) -> Vec<char> {
    s.chars().collect()
}

#[test]
fn reports_exactly_the_registered_entry() {
    let catalog = vec![
        CatalogEntry { name: chars("Adguard"), status: ServiceStatus::NotFound },
        CatalogEntry { name: chars("OpenVPNService"), status: ServiceStatus::Running },
    ];
    let report = conflict_report(&catalog);
    assert_eq!(report.len(), 1);
    assert_eq!(report[0].name, chars("OpenVPNService"));
    assert_eq!(report[0].status, ServiceStatus::Running);
}

#[test]
fn registration_alone_is_the_signal() {
    // A stopped service is still flagged: its registration is the conflict.
    let catalog = vec![
        CatalogEntry { name: chars("WireGuard"), status: ServiceStatus::Stopped },
        CatalogEntry { name: chars("NordVPN"), status: ServiceStatus::Unknown(chars("7")) },
        CatalogEntry { name: chars("hamachi"), status: ServiceStatus::NotFound },
    ];
    let report = conflict_report(&catalog);
    assert_eq!(report.len(), 2);
    assert_eq!(report[0].name, chars("WireGuard"));
    assert_eq!(report[1].name, chars("NordVPN"));
}

#[test]
fn nothing_registered_reports_nothing() {
    let catalog = vec![
        CatalogEntry { name: chars("Killer"), status: ServiceStatus::NotFound },
        CatalogEntry { name: chars("SmartByte"), status: ServiceStatus::NotFound },
    ];
    assert_eq!(conflict_report(&catalog).len(), 0);
}

#[test]
fn flag_test_matches_presence() {
    let present = CatalogEntry { name: chars("tapinstall"), status: ServiceStatus::StopPending };
    let absent = CatalogEntry { name: chars("Check Point"), status: ServiceStatus::NotFound };
    assert!(is_flagged(&present));
    assert!(!is_flagged(&absent));
}

#[test]
fn dns_lines_are_kept_verbatim_and_in_order() {
    let lines = vec![
        chars("   DNS Servers . . . . . . . . . . . : 8.8.8.8"),
        chars("   Subnet Mask . . . . . . . . . . . : 255.255.255.0"),
        chars("                                       1.1.1.1"),
        chars("   DNS Servers . . . . . . . . . . . : 9.9.9.9"),
    ];
    let got = filter_dns_lines(&lines);
    assert_eq!(
        got,
        vec![
            chars("   DNS Servers . . . . . . . . . . . : 8.8.8.8"),
            chars("   DNS Servers . . . . . . . . . . . : 9.9.9.9"),
        ]
    );
}

#[test]
fn no_dns_line_yields_empty_listing() {
    let lines = vec![chars("Windows IP Configuration"), chars("")];
    assert_eq!(filter_dns_lines(&lines).len(), 0);
}
