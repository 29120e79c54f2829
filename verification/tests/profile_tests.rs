use prompt_session::profile::{BusinessProfile, ContactInfo};

#[test]
fn collect_keeps_each_line_without_the_white_space_around_it() {
    let profile = BusinessProfile::collect(
        "  Shear Bliss\n",
        "Personal Care Services\r\n",
        "\tA hair salon. \n",
    );
    assert_eq!(profile.name, "Shear Bliss");
    assert_eq!(profile.industry, "Personal Care Services");
    assert_eq!(profile.description, "A hair salon.");
    assert!(profile.contact.is_none());
}

#[test]
fn collect_accepts_empty_lines() {
    let profile = BusinessProfile::collect("", "\n", "   ");
    assert_eq!(profile.name, "");
    assert_eq!(profile.industry, "");
    assert_eq!(profile.description, "");
}

#[test]
fn with_contact_keeps_what_was_not_provided_apart_from_what_is_empty() {
    let contact = ContactInfo {
        email: "hello@shearbliss.example".to_string(),
        phone: None,
        address: Some(String::new()),
    };
    let profile = BusinessProfile::collect("Shear Bliss", "Personal Care Services", "A hair salon.")
        .with_contact(contact);
    let contact = profile.contact.expect("contact was attached");
    assert_eq!(contact.email, "hello@shearbliss.example");
    assert_eq!(contact.phone, None);
    assert_eq!(contact.address, Some(String::new()));
    assert_eq!(profile.name, "Shear Bliss");
}
