use rust_rdp::server_key::server_public_key;

const RSA2048_CERT: [u8; 928] = [0x30, 0x82, 0x03, 0x9C, 0x30, 0x82, 0x02, 0x84, 0xA0, 0x03, 0x02, 0x01,
0x02, 0x02, 0x09, 0x00, 0xA4, 0x33, 0x2E, 0x8D, 0xE9, 0x69, 0xE3, 0xBB, 0x30, 0x0D, 0x06, 0x09, 0x2A, 0x86,
0x48, 0x86, 0xF7, 0x0D, 0x01, 0x01, 0x0B, 0x05, 0x00, 0x30, 0x64, 0x31, 0x14, 0x30, 0x12, 0x06, 0x03, 0x55,
0x04, 0x03, 0x0C, 0x0B, 0x65, 0x78, 0x61, 0x6D, 0x70, 0x6C, 0x65, 0x2E, 0x63, 0x6F, 0x6D, 0x31, 0x14, 0x30,
0x12, 0x06, 0x03, 0x55, 0x04, 0x07, 0x0C, 0x0B, 0x4C, 0x6F, 0x73, 0x20, 0x41, 0x6E, 0x67, 0x65, 0x6C, 0x65,
0x73, 0x31, 0x13, 0x30, 0x11, 0x06, 0x03, 0x55, 0x04, 0x08, 0x0C, 0x0A, 0x43, 0x61, 0x6C, 0x69, 0x66, 0x6F,
0x72, 0x6E, 0x69, 0x61, 0x31, 0x14, 0x30, 0x12, 0x06, 0x03, 0x55, 0x04, 0x0A, 0x0C, 0x0B, 0x45, 0x78, 0x61,
0x6D, 0x70, 0x6C, 0x65, 0x20, 0x49, 0x6E, 0x63, 0x31, 0x0B, 0x30, 0x09, 0x06, 0x03, 0x55, 0x04, 0x06, 0x13,
0x02, 0x55, 0x53, 0x30, 0x1E, 0x17, 0x0D, 0x32, 0x32, 0x30, 0x31, 0x30, 0x38, 0x31, 0x38, 0x34, 0x30, 0x35,
0x37, 0x5A, 0x17, 0x0D, 0x32, 0x33, 0x30, 0x31, 0x30, 0x38, 0x31, 0x38, 0x34, 0x30, 0x35, 0x37, 0x5A, 0x30,
0x64, 0x31, 0x14, 0x30, 0x12, 0x06, 0x03, 0x55, 0x04, 0x03, 0x0C, 0x0B, 0x65, 0x78, 0x61, 0x6D, 0x70, 0x6C,
0x65, 0x2E, 0x63, 0x6F, 0x6D, 0x31, 0x14, 0x30, 0x12, 0x06, 0x03, 0x55, 0x04, 0x07, 0x0C, 0x0B, 0x4C, 0x6F,
0x73, 0x20, 0x41, 0x6E, 0x67, 0x65, 0x6C, 0x65, 0x73, 0x31, 0x13, 0x30, 0x11, 0x06, 0x03, 0x55, 0x04, 0x08,
0x0C, 0x0A, 0x43, 0x61, 0x6C, 0x69, 0x66, 0x6F, 0x72, 0x6E, 0x69, 0x61, 0x31, 0x14, 0x30, 0x12, 0x06, 0x03,
0x55, 0x04, 0x0A, 0x0C, 0x0B, 0x45, 0x78, 0x61, 0x6D, 0x70, 0x6C, 0x65, 0x20, 0x49, 0x6E, 0x63, 0x31, 0x0B,
0x30, 0x09, 0x06, 0x03, 0x55, 0x04, 0x06, 0x13, 0x02, 0x55, 0x53, 0x30, 0x82, 0x01, 0x22, 0x30, 0x0D, 0x06,
0x09, 0x2A, 0x86, 0x48, 0x86, 0xF7, 0x0D, 0x01, 0x01, 0x01, 0x05, 0x00, 0x03, 0x82, 0x01, 0x0F, 0x00, 0x30,
0x82, 0x01, 0x0A, 0x02, 0x82, 0x01, 0x01, 0x00, 0xBF, 0x59, 0xF7, 0xFE, 0x71, 0x6D, 0xDE, 0x47, 0xC7, 0x35,
0x79, 0xCA, 0x84, 0x6E, 0xFA, 0x8D, 0x30, 0xAB, 0x36, 0x12, 0xE0, 0xD6, 0xA5, 0x24, 0x20, 0x4A, 0x72, 0xCA,
0x8E, 0x50, 0xC9, 0xF4, 0x59, 0x51, 0x3D, 0xF0, 0xD7, 0x33, 0x31, 0xBE, 0xD3, 0xD7, 0xA2, 0xDA, 0x7A, 0x36,
0x27, 0x19, 0xE4, 0x71, 0xEE, 0x6A, 0x9D, 0x87, 0x82, 0x7D, 0x10, 0x24, 0xED, 0x44, 0x60, 0x5A, 0xB9, 0xB4,
0x8F, 0x3B, 0x80, 0x8C, 0x5E, 0x17, 0x3B, 0x9F, 0x3E, 0xC4, 0x00, 0x3D, 0x57, 0xF1, 0x71, 0x84, 0x89, 0xF5,
0xC7, 0xA0, 0x42, 0x1C, 0x46, 0xFB, 0xD5, 0x27, 0xA4, 0x0A, 0xB4, 0xBA, 0x6B, 0x9D, 0xB1, 0x6A, 0x54, 0x5D,
0x1E, 0xCF, 0x6E, 0x2A, 0x56, 0x33, 0xBD, 0x80, 0x59, 0x4E, 0xBA, 0x4A, 0xFE, 0xE7, 0x1F, 0x63, 0xE1, 0xD3,
0x57, 0xC6, 0x4E, 0x9A, 0x3F, 0xF6, 0xB8, 0x37, 0x46, 0xA8, 0x85, 0xC3, 0x73, 0xF3, 0x52, 0x79, 0x87, 0xE4,
0xC2, 0xB4, 0xAF, 0x7F, 0xE4, 0xD4, 0xEA, 0x16, 0x40, 0x5E, 0x5E, 0x15, 0x28, 0x5D, 0xD9, 0x38, 0x82, 0x3A,
0xA1, 0x8E, 0x26, 0x34, 0xBA, 0xFE, 0x84, 0x7A, 0x76, 0x1C, 0xAF, 0xAB, 0xB0, 0x40, 0x1D, 0x3F, 0xA0, 0x3A,
0x07, 0xA9, 0xD0, 0x97, 0xCB, 0xB0, 0xC7, 0x71, 0x56, 0xCC, 0xFE, 0x36, 0x13, 0x1D, 0xAD, 0xF1, 0xC1, 0x09,
0xC2, 0x82, 0x39, 0x72, 0xF0, 0xAF, 0x21, 0xA3, 0x5F, 0x35, 0x8E, 0x78, 0x83, 0x04, 0xC0, 0xC7, 0x8B, 0x95,
0x17, 0x39, 0xD9, 0x1F, 0xAB, 0xFF, 0xD0, 0x7A, 0xA8, 0xCD, 0x4F, 0x69, 0x74, 0x6B, 0x3D, 0x0E, 0xB4, 0x58,
0x74, 0x69, 0xF9, 0xD3, 0x9F, 0x4F, 0xBD, 0xC7, 0x61, 0x20, 0x0D, 0xFB, 0x27, 0xDA, 0xF6, 0x95, 0x62, 0x31,
0x1D, 0x8B, 0x19, 0x1B, 0x7E, 0xEF, 0xAA, 0xE2, 0xF8, 0xD6, 0xF8, 0xEB, 0x02, 0x03, 0x01, 0x00, 0x01, 0xA3,
0x51, 0x30, 0x4F, 0x30, 0x09, 0x06, 0x03, 0x55, 0x1D, 0x13, 0x04, 0x02, 0x30, 0x00, 0x30, 0x0B, 0x06, 0x03,
0x55, 0x1D, 0x0F, 0x04, 0x04, 0x03, 0x02, 0x05, 0xA0, 0x30, 0x1D, 0x06, 0x03, 0x55, 0x1D, 0x25, 0x04, 0x16,
0x30, 0x14, 0x06, 0x08, 0x2B, 0x06, 0x01, 0x05, 0x05, 0x07, 0x03, 0x01, 0x06, 0x08, 0x2B, 0x06, 0x01, 0x05,
0x05, 0x07, 0x03, 0x02, 0x30, 0x16, 0x06, 0x03, 0x55, 0x1D, 0x11, 0x04, 0x0F, 0x30, 0x0D, 0x82, 0x0B, 0x65,
0x78, 0x61, 0x6D, 0x70, 0x6C, 0x65, 0x2E, 0x63, 0x6F, 0x6D, 0x30, 0x0D, 0x06, 0x09, 0x2A, 0x86, 0x48, 0x86,
0xF7, 0x0D, 0x01, 0x01, 0x0B, 0x05, 0x00, 0x03, 0x82, 0x01, 0x01, 0x00, 0x92, 0xAB, 0xC0, 0xF4, 0xCD, 0x16,
0x45, 0x57, 0xDF, 0x03, 0xD1, 0x1B, 0xE6, 0x1F, 0x35, 0xDE, 0xF8, 0xA8, 0xDD, 0xC7, 0x90, 0xF0, 0x92, 0x2D,
0x54, 0x75, 0xB2, 0xBE, 0x1F, 0x6F, 0x34, 0x63, 0xB3, 0xDD, 0xDD, 0xDE, 0xCB, 0x05, 0xC8, 0x38, 0x02, 0x8C,
0x9B, 0x34, 0x11, 0x41, 0x47, 0xD8, 0xED, 0x63, 0x1B, 0x8C, 0x23, 0x3D, 0xA6, 0x94, 0xCA, 0x46, 0x67, 0xE8,
0x15, 0xB3, 0x27, 0x0D, 0x06, 0xF5, 0x69, 0xAF, 0x77, 0x8A, 0xCB, 0x82, 0xA2, 0x8E, 0x50, 0x45, 0x2A, 0x57,
0xE8, 0x39, 0x8D, 0xFE, 0x9E, 0x2F, 0xDE, 0xEC, 0xFB, 0xF6, 0x9F, 0x26, 0xF2, 0x29, 0xFE, 0xC6, 0x12, 0x90,
0xD6, 0x6E, 0x9E, 0xB7, 0x58, 0xB0, 0x47, 0xD7, 0x1B, 0x43, 0x12, 0xEC, 0x9A, 0xC6, 0x95, 0x69, 0x54, 0xE7,
0xD7, 0xAC, 0x5D, 0xB0, 0xBF, 0xA0, 0xAB, 0xB5, 0x78, 0x21, 0x95, 0xDF, 0xF0, 0x25, 0x72, 0xC4, 0xBD, 0x26,
0x1F, 0x91, 0x5D, 0x46, 0x68, 0xFF, 0x9E, 0xA8, 0x96, 0x4E, 0xFE, 0x92, 0x23, 0xDB, 0x48, 0x16, 0x21, 0x21,
0x0A, 0xAA, 0xB5, 0x3F, 0x95, 0xC6, 0x8B, 0xA4, 0xC9, 0x02, 0x0E, 0x7D, 0x33, 0xC0, 0xE5, 0x9D, 0xDF, 0xE3,
0xE5, 0xE2, 0x47, 0x4C, 0x89, 0x40, 0x0E, 0x31, 0xB4, 0x3B, 0x52, 0xCB, 0xBC, 0x07, 0x2E, 0x73, 0x7A, 0xEA,
0xF9, 0xD6, 0x23, 0xD2, 0x63, 0x94, 0x45, 0x7E, 0x0C, 0xCE, 0xEB, 0x2B, 0x7B, 0x22, 0x91, 0x19, 0xDB, 0xEB,
0xD8, 0x83, 0x76, 0x81, 0x80, 0x83, 0x3C, 0xE8, 0x0E, 0x8A, 0xAA, 0x77, 0x60, 0xA9, 0x0E, 0x9D, 0x75, 0x7C,
0xFE, 0x9C, 0x9A, 0xD4, 0xA4, 0x86, 0xAD, 0x3E, 0x75, 0x7C, 0x46, 0x13, 0x75, 0x4A, 0xE3, 0x27, 0xA7, 0x6B,
0xE3, 0x7D, 0x2D, 0x86, 0xAB, 0x14, 0x10, 0x3F, 0xBE, 0xFE, 0xDF, 0x8A, 0xEF, 0xA2, 0x11, 0x33];

const RSA2048_KEY: [u8; 270] = [0x30, 0x82, 0x01, 0x0A, 0x02, 0x82, 0x01, 0x01, 0x00, 0xBF, 0x59, 0xF7, 0xFE,
0x71, 0x6D, 0xDE, 0x47, 0xC7, 0x35, 0x79, 0xCA, 0x84, 0x6E, 0xFA, 0x8D, 0x30, 0xAB, 0x36, 0x12, 0xE0, 0xD6,
0xA5, 0x24, 0x20, 0x4A, 0x72, 0xCA, 0x8E, 0x50, 0xC9, 0xF4, 0x59, 0x51, 0x3D, 0xF0, 0xD7, 0x33, 0x31, 0xBE,
0xD3, 0xD7, 0xA2, 0xDA, 0x7A, 0x36, 0x27, 0x19, 0xE4, 0x71, 0xEE, 0x6A, 0x9D, 0x87, 0x82, 0x7D, 0x10, 0x24,
0xED, 0x44, 0x60, 0x5A, 0xB9, 0xB4, 0x8F, 0x3B, 0x80, 0x8C, 0x5E, 0x17, 0x3B, 0x9F, 0x3E, 0xC4, 0x00, 0x3D,
0x57, 0xF1, 0x71, 0x84, 0x89, 0xF5, 0xC7, 0xA0, 0x42, 0x1C, 0x46, 0xFB, 0xD5, 0x27, 0xA4, 0x0A, 0xB4, 0xBA,
0x6B, 0x9D, 0xB1, 0x6A, 0x54, 0x5D, 0x1E, 0xCF, 0x6E, 0x2A, 0x56, 0x33, 0xBD, 0x80, 0x59, 0x4E, 0xBA, 0x4A,
0xFE, 0xE7, 0x1F, 0x63, 0xE1, 0xD3, 0x57, 0xC6, 0x4E, 0x9A, 0x3F, 0xF6, 0xB8, 0x37, 0x46, 0xA8, 0x85, 0xC3,
0x73, 0xF3, 0x52, 0x79, 0x87, 0xE4, 0xC2, 0xB4, 0xAF, 0x7F, 0xE4, 0xD4, 0xEA, 0x16, 0x40, 0x5E, 0x5E, 0x15,
0x28, 0x5D, 0xD9, 0x38, 0x82, 0x3A, 0xA1, 0x8E, 0x26, 0x34, 0xBA, 0xFE, 0x84, 0x7A, 0x76, 0x1C, 0xAF, 0xAB,
0xB0, 0x40, 0x1D, 0x3F, 0xA0, 0x3A, 0x07, 0xA9, 0xD0, 0x97, 0xCB, 0xB0, 0xC7, 0x71, 0x56, 0xCC, 0xFE, 0x36,
0x13, 0x1D, 0xAD, 0xF1, 0xC1, 0x09, 0xC2, 0x82, 0x39, 0x72, 0xF0, 0xAF, 0x21, 0xA3, 0x5F, 0x35, 0x8E, 0x78,
0x83, 0x04, 0xC0, 0xC7, 0x8B, 0x95, 0x17, 0x39, 0xD9, 0x1F, 0xAB, 0xFF, 0xD0, 0x7A, 0xA8, 0xCD, 0x4F, 0x69,
0x74, 0x6B, 0x3D, 0x0E, 0xB4, 0x58, 0x74, 0x69, 0xF9, 0xD3, 0x9F, 0x4F, 0xBD, 0xC7, 0x61, 0x20, 0x0D, 0xFB,
0x27, 0xDA, 0xF6, 0x95, 0x62, 0x31, 0x1D, 0x8B, 0x19, 0x1B, 0x7E, 0xEF, 0xAA, 0xE2, 0xF8, 0xD6, 0xF8, 0xEB,
0x02, 0x03, 0x01, 0x00, 0x01];

#[test]
fn server_key_is_the_raw_key_of_the_certificate() {
    // A 2048-bit RSA certificate: the key is the content of its SubjectPublicKeyInfo BIT STRING.
    assert_eq!(server_public_key(Some(&RSA2048_CERT)), Some(RSA2048_KEY.to_vec()));
    // Bytes that are not a certificate give the empty key.
    assert_eq!(server_public_key(Some(&RSA2048_KEY)), Some(vec![]));
}
