use lorenz_view::Sprite;

#[test]
fn first_sprite_is_a() {
    assert_eq!(Sprite::first(), Sprite::A);
    assert_eq!(Sprite::first().index(), 0);
}

#[test]
fn next_flips() {
    assert_eq!(Sprite::A.next(), Sprite::B);
    assert_eq!(Sprite::B.next(), Sprite::A);
}

#[test]
fn sprite_indices() {
    assert_eq!(Sprite::A.index(), 0);
    assert_eq!(Sprite::B.index(), 1);
}

#[test]
fn sprite_by_position() {
    assert_eq!(Sprite::at(0), Sprite::A);
    assert_eq!(Sprite::at(1), Sprite::B);
    assert_eq!(Sprite::at(2), Sprite::A);
    assert_eq!(Sprite::at(9_999), Sprite::B);
    assert_eq!(Sprite::at(usize::MAX), Sprite::B);
}

#[test]
fn stepping_matches_position() {
    let mut s = Sprite::first();
    for i in 0..50usize {
        assert_eq!(s, Sprite::at(i));
        assert_eq!(s.index(), i % 2);
        assert_ne!(s, s.next());
        s = s.next();
    }
}
