use mc_listen::hash::calc_hash;

#[test]
pub fn calc_hashes() {
    assert_eq!(
        "-7c9d5b0044c130109a5d7b5fb5c317c02b4e28c1",
        calc_hash("jeb_")
    );
    assert_eq!(
        "4ed1f46bbe04bc756bcb17c0c7ce3e4632f06a48",
        calc_hash("Notch")
    );
    assert_eq!(
        "88e16a1019277b15d58faf0541e11910eb756f6",
        calc_hash("simon")
    );
}
