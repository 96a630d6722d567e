use ellipsoid::views::ViewKind;

#[test]
fn each_view_has_a_title_and_a_layer_of_its_own() {
    assert_eq!(ViewKind::Surface.title(), "Ellipsoid");
    assert_eq!(ViewKind::Flat.title(), "Flattened");
    assert_eq!(ViewKind::Surface.layer(), 1);
    assert_eq!(ViewKind::Flat.layer(), 2);
    assert_eq!(ViewKind::ALL, [ViewKind::Surface, ViewKind::Flat]);
}
