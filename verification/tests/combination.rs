use project_type_checker::combine::detect_combined_project_type;

fn labels(names: &[&str]) -> Vec<String> {
    names.iter().map(|n| n.to_string()).collect()
}

#[test]
fn website_with_go_backend_is_described() {
    assert_eq!(
        detect_combined_project_type(&labels(&["Website", "Go Backend"])),
        "Website with Go Backend"
    );
}

#[test]
fn every_backend_has_its_own_description() {
    let cases = [
        ("Rust Backend", "Website with Rust Backend"),
        ("Python Backend", "Website with Python Backend"),
        ("C# Backend", "Website with .NET Backend"),
        ("Node.js Backend", "Website with Node.js Backend"),
        ("Java Backend", "Website with Java Backend"),
        ("Ruby Backend (Rails)", "Website with Ruby on Rails Backend"),
        ("Go Backend", "Website with Go Backend"),
        ("PHP Backend", "Website with PHP Backend"),
        ("Kotlin Backend", "Website with Kotlin Backend"),
        ("Scala Backend", "Website with Scala Backend"),
    ];
    for (backend, description) in cases {
        assert_eq!(detect_combined_project_type(&labels(&["Website", backend])), description);
        assert_eq!(detect_combined_project_type(&labels(&[backend, "Website"])), description);
        assert_eq!(detect_combined_project_type(&labels(&[backend])), "Unknown Project Type");
    }
}

#[test]
fn kinds_that_stand_alone() {
    assert_eq!(detect_combined_project_type(&labels(&["Mobile App"])), "Mobile App");
    assert_eq!(detect_combined_project_type(&labels(&["Desktop App"])), "Desktop App");
    assert_eq!(detect_combined_project_type(&labels(&["CLI Tool"])), "CLI Tool");
}

#[test]
fn static_website_when_nothing_else_is_present() {
    assert_eq!(
        detect_combined_project_type(&labels(&["Website", "Static website"])),
        "Static website"
    );
    assert_eq!(detect_combined_project_type(&labels(&["Static website"])), "Unknown Project Type");
    assert_eq!(detect_combined_project_type(&labels(&["Website"])), "Unknown Project Type");
}

#[test]
fn nothing_matches_gives_unknown() {
    assert_eq!(detect_combined_project_type(&[]), "Unknown Project Type");
    assert_eq!(detect_combined_project_type(&labels(&["Rust CLI Tool"])), "Unknown Project Type");
    assert_eq!(
        detect_combined_project_type(&labels(&["Website", "Website using React"])),
        "Unknown Project Type"
    );
    assert_eq!(detect_combined_project_type(&labels(&["website", "go backend"])), "Unknown Project Type");
}

#[test]
fn first_combination_of_the_list_wins() {
    assert_eq!(
        detect_combined_project_type(&labels(&["Go Backend", "Python Backend", "Website"])),
        "Website with Python Backend"
    );
    assert_eq!(
        detect_combined_project_type(&labels(&["CLI Tool", "Desktop App", "Mobile App"])),
        "Mobile App"
    );
    assert_eq!(
        detect_combined_project_type(&labels(&["Website", "Static website", "CLI Tool"])),
        "CLI Tool"
    );
    assert_eq!(
        detect_combined_project_type(&labels(&["Mobile App", "Website", "Static website", "PHP Backend"])),
        "Website with PHP Backend"
    );
}

#[test]
fn order_and_repetition_of_labels_do_not_matter() {
    let a = labels(&["Website", "Static website", "Desktop App"]);
    let b = labels(&["Desktop App", "Static website", "Website", "Desktop App"]);
    assert_eq!(detect_combined_project_type(&a), detect_combined_project_type(&b));
    assert_eq!(detect_combined_project_type(&a), "Desktop App");
    assert_eq!(detect_combined_project_type(&a), detect_combined_project_type(&a));
}
