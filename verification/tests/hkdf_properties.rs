use hkdf_core::aead;
use hkdf_core::digest;
use hkdf_core::error::Unspecified;
use hkdf_core::hkdf::{
    block_input, write_block, Algorithm, KeyType, Okm, Prk, Salt, HKDF_SHA1_FOR_LEGACY_USE_ONLY,
    HKDF_SHA256, HKDF_SHA384, HKDF_SHA512, MAX_BLOCKS,
};
use hkdf_core::hmac;

/// A length descriptor for tests: just the number of bytes.
struct Len(usize);

impl KeyType for Len {
    fn len(&self) -> usize {
        self.0
    }
}

fn from_hex(text: &str) -> Vec<u8> {
    let digits: Vec<u8> = text
        .chars()
        .map(|c| c.to_digit(16).expect("a hex digit") as u8)
        .collect();
    assert_eq!(digits.len() % 2, 0);
    digits.chunks(2).map(|pair| pair[0] * 16 + pair[1]).collect()
}

fn output(okm: Okm<'_, Len>) -> Vec<u8> {
    let mut bytes = vec![0u8; okm.len().0];
    okm.fill(&mut bytes).unwrap();
    bytes
}

fn derive(algorithm: Algorithm, salt: &[u8], secret: &[u8], info: &[&[u8]], len: usize) -> Vec<u8> {
    output(Salt::new(algorithm, salt).extract(secret).expand(info, Len(len)).unwrap())
}

fn all_algorithms() -> [Algorithm; 4] {
    [HKDF_SHA1_FOR_LEGACY_USE_ONLY(), HKDF_SHA256(), HKDF_SHA384(), HKDF_SHA512()]
}

/// The same derivation by the `hkdf` crate.
fn reference(algorithm: Algorithm, salt: &[u8], secret: &[u8], info: &[u8], len: usize) -> Vec<u8> {
    let mut bytes = vec![0u8; len];
    match algorithm.hmac_algorithm().digest_algorithm() {
        digest::Algorithm::SHA1 => ::hkdf::Hkdf::<sha1::Sha1>::new(Some(salt), secret)
            .expand(info, &mut bytes)
            .unwrap(),
        digest::Algorithm::SHA256 => ::hkdf::Hkdf::<sha2::Sha256>::new(Some(salt), secret)
            .expand(info, &mut bytes)
            .unwrap(),
        digest::Algorithm::SHA384 => ::hkdf::Hkdf::<sha2::Sha384>::new(Some(salt), secret)
            .expand(info, &mut bytes)
            .unwrap(),
        digest::Algorithm::SHA512 => ::hkdf::Hkdf::<sha2::Sha512>::new(Some(salt), secret)
            .expand(info, &mut bytes)
            .unwrap(),
    }
    bytes
}

#[test]
fn derivation_is_deterministic() {
    for algorithm in all_algorithms() {
        let first = derive(algorithm, b"salt", b"secret", &[b"info"], 100);
        let second = derive(algorithm, b"salt", b"secret", &[b"info"], 100);
        assert_eq!(first, second);
        assert_eq!(first.len(), 100);
    }
}

#[test]
fn expansions_of_one_key_are_independent() {
    let prk = Salt::new(HKDF_SHA256(), b"salt").extract(b"secret");
    let first = output(prk.expand(&[b"info"], Len(50)).unwrap());
    let other = output(prk.expand(&[b"other"], Len(50)).unwrap());
    let again = output(prk.expand(&[b"info"], Len(50)).unwrap());
    assert_eq!(first, again);
    assert_ne!(first, other);
}

#[test]
fn different_inputs_give_different_output() {
    let base = derive(HKDF_SHA256(), b"salt", b"secret", &[b"info"], 32);
    assert_ne!(base, derive(HKDF_SHA256(), b"salu", b"secret", &[b"info"], 32));
    assert_ne!(base, derive(HKDF_SHA256(), b"salt", b"secreu", &[b"info"], 32));
    assert_ne!(base, derive(HKDF_SHA256(), b"salt", b"secret", &[b"infp"], 32));
    assert_ne!(base, derive(HKDF_SHA384(), b"salt", b"secret", &[b"info"], 32));
}

#[test]
fn info_parts_count_as_their_concatenation() {
    for algorithm in all_algorithms() {
        let whole = derive(algorithm, b"salt", b"secret", &[b"one two three"], 150);
        assert_eq!(whole, derive(algorithm, b"salt", b"secret", &[b"one ", b"two ", b"three"], 150));
        assert_eq!(whole, derive(algorithm, b"salt", b"secret", &[b"", b"one two", b"", b" three", b""], 150));
        assert_eq!(whole, derive(algorithm, b"salt", b"secret", &[b"o", b"ne two thre", b"e"], 150));
    }
    let none = derive(HKDF_SHA256(), b"salt", b"secret", &[], 40);
    assert_eq!(none, derive(HKDF_SHA256(), b"salt", b"secret", &[b""], 40));
    assert_eq!(none, derive(HKDF_SHA256(), b"salt", b"secret", &[b"", b""], 40));
}

#[test]
fn a_shorter_output_is_a_prefix_of_a_longer_one() {
    for algorithm in all_algorithms() {
        let long = derive(algorithm, b"salt", b"secret", &[b"info"], 200);
        for len in [0usize, 1, 19, 20, 21, 32, 33, 48, 64, 65, 128, 199] {
            let short = derive(algorithm, b"salt", b"secret", &[b"info"], len);
            assert_eq!(short[..], long[..len]);
        }
    }
}

#[test]
fn output_agrees_with_an_independent_implementation() {
    for algorithm in all_algorithms() {
        let block = algorithm.hmac_algorithm().digest_algorithm().output_len();
        let lengths = [
            0,
            1,
            block - 1,
            block,
            block + 1,
            2 * block,
            3 * block + 7,
            254 * block + 1,
            255 * block - 1,
            255 * block,
        ];
        for len in lengths {
            assert_eq!(
                derive(algorithm, b"some salt", b"some secret", &[b"con", b"text"], len),
                reference(algorithm, b"some salt", b"some secret", b"context", len)
            );
        }
        // No salt at all, and an empty secret.
        assert_eq!(
            derive(algorithm, b"", b"", &[], 77),
            reference(algorithm, b"", b"", b"", 77)
        );
    }
}

#[test]
fn an_empty_salt_stands_for_a_block_of_zeros() {
    for algorithm in all_algorithms() {
        let digest_alg = algorithm.hmac_algorithm().digest_algorithm();
        let hash_len_zeros = vec![0u8; digest_alg.output_len()];
        let block_len_zeros = vec![0u8; digest_alg.block_len()];
        let with_none = derive(algorithm, b"", b"secret", &[b"info"], 42);
        assert_eq!(with_none, derive(algorithm, &hash_len_zeros, b"secret", &[b"info"], 42));
        assert_eq!(with_none, derive(algorithm, &block_len_zeros, b"secret", &[b"info"], 42));
    }
}

#[test]
fn published_vectors_for_sha1() {
    // RFC 5869, appendices A.4, A.6 and A.7.
    assert_eq!(
        derive(
            HKDF_SHA1_FOR_LEGACY_USE_ONLY(),
            &from_hex("000102030405060708090a0b0c"),
            &from_hex("0b0b0b0b0b0b0b0b0b0b0b"),
            &[&from_hex("f0f1f2f3f4f5f6f7f8f9")],
            42
        ),
        from_hex(
            "085a01ea1b10f36933068b56efa5ad81a4f14b822f5b091568a9cdd4f155fda2\
             c22e422478d305f3f896"
        )
    );
    assert_eq!(
        derive(
            HKDF_SHA1_FOR_LEGACY_USE_ONLY(),
            &[],
            &from_hex("0b0b0b0b0b0b0b0b0b0b0b0b0b0b0b0b0b0b0b0b0b0b"),
            &[&[]],
            42
        ),
        from_hex(
            "0ac1af7002b3d761d1e55298da9d0506b9ae52057220a306e07b6b87e8df21d0\
             ea00033de03984d34918"
        )
    );
    assert_eq!(
        derive(
            HKDF_SHA1_FOR_LEGACY_USE_ONLY(),
            &[],
            &from_hex("0c0c0c0c0c0c0c0c0c0c0c0c0c0c0c0c0c0c0c0c0c0c"),
            &[],
            42
        ),
        from_hex(
            "2c91117204d745f3500d636a62f64f0ab3bae548aa53d423b0d1f27ebba6f5e5\
             673a081d70cce7acfc48"
        )
    );
}

#[test]
fn exact_output_for_each_algorithm() {
    let salt = from_hex("000102030405060708090a0b0c");
    let secret = from_hex("0b0b0b0b0b0b0b0b0b0b0b0b0b0b0b0b0b0b0b0b0b0b");
    let info = from_hex("f0f1f2f3f4f5f6f7f8f9");
    assert_eq!(
        derive(HKDF_SHA1_FOR_LEGACY_USE_ONLY(), &salt, &secret, &[&info], 42),
        from_hex(
            "d6000ffb5b50bd3970b260017798fb9c8df9ce2e2c16b6cd709cca07dc3cf9cf\
             26d6c6d750d0aaf5ac94"
        )
    );
    assert_eq!(
        derive(HKDF_SHA384(), &salt, &secret, &[&info], 42),
        from_hex(
            "9b5097a86038b805309076a44b3a9f38063e25b516dcbf369f394cfab43685f7\
             48b6457763e4f0204fc5"
        )
    );
    assert_eq!(
        derive(HKDF_SHA512(), &salt, &secret, &[&info], 42),
        from_hex(
            "832390086cda71fb47625bb5ceb168e4c8e26a1a16ed34d9fc7fe92c14815793\
             38da362cb8d9f925d7cb"
        )
    );
}

#[test]
fn extraction_is_the_code_of_the_secret_under_the_salt() {
    let salt = from_hex("000102030405060708090a0b0c");
    let secret = from_hex("0b0b0b0b0b0b0b0b0b0b0b0b0b0b0b0b0b0b0b0b0b0b");
    let published_prk =
        from_hex("077709362c2e32df0ddc3f0dc47bba6390b6c73bb50f9c3122ec844ad7c2b3e5");
    assert_eq!(
        hmac::sign(&hmac::Key::new(hmac::HMAC_SHA256(), &salt), &secret),
        published_prk
    );
    let extracted = Salt::new(HKDF_SHA256(), &salt).extract(&secret);
    let taken = Prk::new_less_safe(HKDF_SHA256(), &published_prk);
    assert_eq!(
        output(extracted.expand(&[b"info"], Len(99)).unwrap()),
        output(taken.expand(&[b"info"], Len(99)).unwrap())
    );
}

#[test]
fn the_first_block_is_the_code_of_info_and_counter_one() {
    let prk_bytes = [0x42u8; 32];
    let prk = Prk::new_less_safe(HKDF_SHA256(), &prk_bytes);
    let first = output(prk.expand(&[b"info"], Len(32)).unwrap());
    let key = hmac::Key::new(hmac::HMAC_SHA256(), &prk_bytes);
    assert_eq!(first, hmac::sign(&key, b"info\x01"));
    // The second block is the code of the first, the info and counter two.
    let two = output(prk.expand(&[b"info"], Len(64)).unwrap());
    let mut message = first.clone();
    message.extend_from_slice(b"info\x02");
    assert_eq!(two[32..], hmac::sign(&key, &message)[..]);
}

#[test]
fn length_limit_is_255_blocks() {
    assert_eq!(MAX_BLOCKS, 255);
    assert_eq!(HKDF_SHA1_FOR_LEGACY_USE_ONLY().max_output_len(), 5100);
    assert_eq!(HKDF_SHA256().max_output_len(), 8160);
    assert_eq!(HKDF_SHA384().max_output_len(), 12240);
    assert_eq!(HKDF_SHA512().max_output_len(), 16320);
    for algorithm in all_algorithms() {
        let prk = Prk::new_less_safe(algorithm, b"key");
        let limit = algorithm.max_output_len();
        let okm = prk.expand(&[b"info"], Len(limit)).unwrap();
        assert_eq!(okm.len().0, limit);
        assert_eq!(output(okm).len(), limit);
        assert!(matches!(prk.expand(&[b"info"], Len(limit + 1)), Err(Unspecified)));
        assert!(matches!(prk.expand(&[b"info"], Len(usize::MAX)), Err(Unspecified)));
    }
}

#[test]
fn zero_length_expansion_fills_nothing() {
    for algorithm in all_algorithms() {
        let prk = Prk::new_less_safe(algorithm, b"key");
        let okm = prk.expand(&[b"info"], Len(0)).unwrap();
        let mut empty: [u8; 0] = [];
        assert_eq!(okm.fill(&mut empty), Ok(()));
        // A buffer that is not empty does not match a request for nothing.
        let okm = prk.expand(&[b"info"], Len(0)).unwrap();
        let mut one = [0xaau8; 1];
        assert_eq!(okm.fill(&mut one), Err(Unspecified));
        assert_eq!(one, [0xaa]);
    }
}

#[test]
fn a_buffer_of_the_wrong_length_is_left_untouched() {
    let prk = Salt::new(HKDF_SHA256(), &[]).extract(&[]);

    let mut short = [0x11u8; 1];
    assert_eq!(prk.expand(&[b"info"], Len(2)).unwrap().fill(&mut short), Err(Unspecified));
    assert_eq!(short, [0x11]);

    let mut long = [0x22u8; 3];
    assert_eq!(prk.expand(&[b"info"], Len(2)).unwrap().fill(&mut long), Err(Unspecified));
    assert_eq!(long, [0x22, 0x22, 0x22]);

    let mut exact = [0x33u8; 2];
    assert_eq!(prk.expand(&[b"info"], Len(2)).unwrap().fill(&mut exact), Ok(()));
    assert_eq!(exact.to_vec(), from_hex("9c9c"));
}

#[test]
fn a_request_remembers_its_descriptor() {
    let prk = Prk::new_less_safe(HKDF_SHA256(), b"key");
    assert_eq!(prk.expand(&[], Len(17)).unwrap().len().0, 17);
    assert_eq!(*prk.expand(&[], HKDF_SHA384()).unwrap().len(), HKDF_SHA384());
    assert_eq!(*prk.expand(&[], hmac::HMAC_SHA512()).unwrap().len(), hmac::HMAC_SHA512());
    assert_eq!(**prk.expand(&[], &aead::AES_128_GCM).unwrap().len(), aead::AES_128_GCM);
}

#[test]
fn descriptors_report_the_length_of_their_keys() {
    assert_eq!(KeyType::len(&HKDF_SHA1_FOR_LEGACY_USE_ONLY()), 20);
    assert_eq!(KeyType::len(&HKDF_SHA256()), 32);
    assert_eq!(KeyType::len(&HKDF_SHA384()), 48);
    assert_eq!(KeyType::len(&HKDF_SHA512()), 64);
    assert_eq!(KeyType::len(&hmac::HMAC_SHA1_FOR_LEGACY_USE_ONLY()), 20);
    assert_eq!(KeyType::len(&hmac::HMAC_SHA256()), 32);
    assert_eq!(KeyType::len(&hmac::HMAC_SHA384()), 48);
    assert_eq!(KeyType::len(&hmac::HMAC_SHA512()), 64);
    assert_eq!(KeyType::len(&&aead::AES_128_GCM), 16);
    assert_eq!(KeyType::len(&&aead::AES_256_GCM), 32);
    assert_eq!(KeyType::len(&&aead::CHACHA20_POLY1305), 32);
}

#[test]
fn output_can_seed_a_further_derivation() {
    let prk = Salt::new(HKDF_SHA256(), &[]).extract(&[]);
    let okm_bytes = from_hex("9c9c026055b7e6649ec5bf9ac4b3485f38735832679e4bced420d37e18e21755");
    assert_eq!(output(prk.expand(&[b"info"], Len(32)).unwrap()), okm_bytes);

    // As a pseudorandom key.
    let next = Prk::from(prk.expand(&[b"info"], HKDF_SHA256()).unwrap());
    assert_eq!(
        output(next.expand(&[b"next"], Len(16)).unwrap()),
        from_hex("c3d1062286e16219a596036e3b988849")
    );

    // As a salt.
    let salt = Salt::from(prk.expand(&[b"info"], HKDF_SHA256()).unwrap());
    assert_eq!(salt.algorithm(), HKDF_SHA256());
    assert_eq!(
        output(salt.extract(b"secret").expand(&[b"next"], Len(16)).unwrap()),
        from_hex("4177155963c0c2e726570544fcc38653")
    );

    // As an HMAC key.
    let key = hmac::Key::from(prk.expand(&[b"info"], hmac::HMAC_SHA256()).unwrap());
    assert_eq!(key.algorithm(), hmac::HMAC_SHA256());
    assert_eq!(
        hmac::sign(&key, b"message"),
        from_hex("3a0144903d889c4ee32e94dc776d4e21771082d17d209ec489bd10c5c203f04d")
    );
}

#[test]
fn the_seeded_key_is_for_the_requested_algorithm() {
    // A SHA-256 key expands to 64 bytes that become a SHA-512 key.
    let prk = Prk::new_less_safe(HKDF_SHA256(), b"key");
    let wide = Prk::from(prk.expand(&[b"info"], HKDF_SHA512()).unwrap());
    let bytes = output(prk.expand(&[b"info"], Len(64)).unwrap());
    let same = Prk::new_less_safe(HKDF_SHA512(), &bytes);
    assert_eq!(
        output(wide.expand(&[b"x"], Len(70)).unwrap()),
        output(same.expand(&[b"x"], Len(70)).unwrap())
    );
}

#[test]
fn output_can_become_an_aead_key() {
    let prk = Salt::new(HKDF_SHA384(), b"salt").extract(b"secret");
    for algorithm in [&aead::AES_128_GCM, &aead::AES_256_GCM, &aead::CHACHA20_POLY1305] {
        let key = aead::UnboundKey::from(prk.expand(&[b"info"], algorithm).unwrap());
        assert_eq!(key.algorithm(), algorithm);
    }
}

#[test]
fn an_aead_key_must_have_the_length_of_its_algorithm() {
    assert_eq!(aead::AES_128_GCM.key_len(), 16);
    assert_eq!(aead::AES_256_GCM.key_len(), 32);
    assert_eq!(aead::CHACHA20_POLY1305.key_len(), 32);
    assert!(aead::UnboundKey::new(&aead::AES_128_GCM, &[0u8; 16]).is_ok());
    assert!(matches!(aead::UnboundKey::new(&aead::AES_128_GCM, &[0u8; 15]), Err(Unspecified)));
    assert!(matches!(aead::UnboundKey::new(&aead::AES_128_GCM, &[0u8; 17]), Err(Unspecified)));
    assert!(matches!(aead::UnboundKey::new(&aead::AES_128_GCM, &[0u8; 32]), Err(Unspecified)));
    assert!(aead::UnboundKey::new(&aead::AES_256_GCM, &[0u8; 32]).is_ok());
    assert!(matches!(aead::UnboundKey::new(&aead::AES_256_GCM, &[0u8; 16]), Err(Unspecified)));
    assert!(aead::UnboundKey::new(&aead::CHACHA20_POLY1305, &[0u8; 32]).is_ok());
    assert!(matches!(aead::UnboundKey::new(&aead::CHACHA20_POLY1305, &[]), Err(Unspecified)));
    assert_eq!(format!("{:?}", aead::CHACHA20_POLY1305), "CHACHA20_POLY1305");
    assert_ne!(aead::AES_128_GCM, aead::AES_256_GCM);
}

#[test]
fn a_cloned_key_expands_alike() {
    for algorithm in all_algorithms() {
        let prk = Salt::new(algorithm, b"salt").extract(b"secret");
        let copy = prk.clone();
        assert_eq!(
            output(prk.expand(&[b"info"], Len(123)).unwrap()),
            output(copy.expand(&[b"info"], Len(123)).unwrap())
        );
    }
}

#[test]
fn algorithms_are_equal_when_they_name_the_same_digest() {
    let algorithms = all_algorithms();
    for (i, a) in algorithms.iter().enumerate() {
        for (j, b) in algorithms.iter().enumerate() {
            assert_eq!(a == b, i == j);
        }
    }
    assert_eq!(HKDF_SHA256(), Algorithm(hmac::Algorithm(digest::SHA256)));
    assert_eq!(HKDF_SHA256().hmac_algorithm(), hmac::HMAC_SHA256());
    assert_eq!(
        format!("{:?}", HKDF_SHA1_FOR_LEGACY_USE_ONLY()),
        "Algorithm(Algorithm(SHA1))"
    );
    assert_eq!(format!("{:?}", HKDF_SHA512()), "Algorithm(Algorithm(SHA512))");
}

#[test]
fn block_input_joins_previous_block_info_and_counter() {
    assert_eq!(block_input(&[], &[], 1), vec![1]);
    assert_eq!(block_input(&[], &[b"info"], 1), b"info\x01".to_vec());
    assert_eq!(block_input(&[9, 8], &[&[1, 2], &[], &[3]], 7), vec![9, 8, 1, 2, 3, 7]);
    assert_eq!(block_input(&[0xff], &[], 255), vec![0xff, 255]);
    assert_eq!(block_input(b"ab", &[b"", b""], 0), vec![b'a', b'b', 0]);
}

#[test]
fn write_block_copies_what_there_is_room_for() {
    // The block fits.
    let mut out = [9u8; 6];
    assert_eq!(write_block(&mut out, 1, &[1, 2, 3]), 4);
    assert_eq!(out, [9, 1, 2, 3, 9, 9]);

    // The block ends at the end.
    let mut out = [9u8; 4];
    assert_eq!(write_block(&mut out, 1, &[1, 2, 3]), 4);
    assert_eq!(out, [9, 1, 2, 3]);

    // The block is cut off at the end.
    let mut out = [9u8; 4];
    assert_eq!(write_block(&mut out, 2, &[1, 2, 3]), 4);
    assert_eq!(out, [9, 9, 1, 2]);

    // No room at all.
    let mut out = [9u8; 4];
    assert_eq!(write_block(&mut out, 4, &[1, 2, 3]), 4);
    assert_eq!(out, [9, 9, 9, 9]);
    assert_eq!(write_block(&mut out, 7, &[1, 2, 3]), 7);
    assert_eq!(out, [9, 9, 9, 9]);

    // An empty block, and an empty buffer.
    assert_eq!(write_block(&mut out, 2, &[]), 2);
    assert_eq!(out, [9, 9, 9, 9]);
    let mut nothing: [u8; 0] = [];
    assert_eq!(write_block(&mut nothing, 0, &[1]), 0);
}
