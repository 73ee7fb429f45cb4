//! Concrete instances of the library's laws.

use proserpina::backend::credentials::{Credentials, ProviderOverride};
use proserpina::{MessageKind, Panel};

#[test]
fn labels_round_trip_for_every_kind_and_panel() {
    for k in [
        MessageKind::Prompt,
        MessageKind::Critique,
        MessageKind::Rebuttal,
        MessageKind::Question,
        MessageKind::Concession,
        MessageKind::Verdict,
    ] {
        assert_eq!(MessageKind::from_label(k.label()), Ok(k));
    }
    for p in [Panel::Default, Panel::Duo, Panel::Panel] {
        assert_eq!(Panel::from_name(p.name()), Some(p));
    }
}

#[test]
fn a_set_override_reads_back_and_a_removed_one_is_gone() {
    let mut c = Credentials::default();
    let o = ProviderOverride { api_key: Some("k".to_owned()), ..ProviderOverride::default() };
    c.set_override("p", o);
    assert_eq!(c.override_for("p").unwrap().api_key.as_deref(), Some("k"));
    c.set_override("p", ProviderOverride::default());
    assert!(c.override_for("p").unwrap().api_key.is_none());
    assert_eq!(c.iter().len(), 1);
    c.remove_override("p");
    assert!(c.override_for("p").is_none());
}
