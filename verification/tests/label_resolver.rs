//! Block creation for the block starts of a piece of code.

use aarch64_air_lifter::arm64::decode::decode_all;
use aarch64_air_lifter::arm64::ir::Builder;
use aarch64_air_lifter::arm64::LabelResolver;

#[test]
// Add with carry
fn label_resolver_simple_test() {
    let bytes = [
        0x20, 0x00, 0x02, 0xB0, // add x0, x1, x2
        0xFF, 0xFF, 0xFF, 0x17, // b -1
        0x00, 0x00, 0x00, 0x14, // b 0
        0xFD, 0xFF, 0xFF, 0x17, // b -3
        0x41, 0x00, 0x03, 0x8B, // add x1, x2, x3
        0x02, 0x00, 0x00, 0x14, // b 2
        0x41, 0x00, 0x03, 0x8B, // add x1, x2, x3
    ];

    let mut builder = Builder::new();
    let insts = decode_all(&bytes).unwrap();
    let mut resolver = LabelResolver::new(&bytes).unwrap();
    resolver.resolve(&insts, &mut builder).unwrap();

    let expected: Vec<String> = vec![
        "entry", "block_0", "block_8", "block_12", "block_16", "block_24", "block_28",
    ]
    .into_iter()
    .map(String::from)
    .collect();

    let mut actual = vec![];
    for block in builder.region.blocks.iter() {
        actual.push(block.name.iter().collect::<String>());
    }

    assert_eq!(expected, actual);
}
