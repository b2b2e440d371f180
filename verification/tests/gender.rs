use kitties::gender::{kitty_gender, Gender};

#[test]
fn even_length_is_male() {
    assert_eq!(kitty_gender(&vec![1, 2]), Gender::Male);
    assert_eq!(kitty_gender(&vec![9, 9, 9, 9]), Gender::Male);
}

#[test]
fn odd_length_is_female() {
    assert_eq!(kitty_gender(&vec![1]), Gender::Female);
    assert_eq!(kitty_gender(&vec![1, 2, 3]), Gender::Female);
}

#[test]
fn empty_identity_is_male() {
    assert_eq!(kitty_gender(&Vec::new()), Gender::Male);
}

#[test]
fn gender_is_the_same_on_every_call() {
    let dna = vec![4, 5, 6];
    assert_eq!(kitty_gender(&dna), kitty_gender(&dna));
    assert_eq!(kitty_gender(&dna), kitty_gender(&dna.clone()));
}

#[test]
fn gender_looks_at_the_length_only() {
    assert_eq!(kitty_gender(&vec![0, 0]), kitty_gender(&vec![255, 7]));
    assert_eq!(kitty_gender(&vec![0]), kitty_gender(&vec![255]));
}
