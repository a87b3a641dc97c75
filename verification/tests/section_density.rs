use axolotl_core::density::FlatCache;
use axolotl_core::density::Function;
use axolotl_core::density::GenPass;
use axolotl_core::density::NoiseFunction;
use axolotl_core::density::OnceCache;
use axolotl_core::generator::BiomeSourceSettings;
use axolotl_core::generator::ChunkContext;
use axolotl_core::generator::NoiseGenerator;
use axolotl_core::generator::NoiseSetting;
use axolotl_core::generator::Settings;
use axolotl_core::loading::build_function;
use axolotl_core::loading::BuildDefResult;
use axolotl_core::loading::DensityLoader;
use axolotl_core::loading::FunctionArgument;
use axolotl_core::density::OneParamKind;
use axolotl_core::density::TwoParamKind;
use axolotl_core::section::AxolotlBlockSection;
use axolotl_core::section::AxolotlChunkSection;
use axolotl_core::section::InvalidChunkSection;
use axolotl_core::section::SectionPosIndex;
use axolotl_core::BlockPosition;
use axolotl_core::OwnedNameSpaceKey;

#[test]
fn pack_unpack_round_trip() {
    for x in 0..16u64 {
        for y in 0..16u64 {
            for z in 0..16u64 {
                let idx = SectionPosIndex::from_parts(x, y, z);
                assert_eq!(idx.into_parts(), (x, y, z));
            }
        }
    }
}

#[test]
fn pack_literal() {
    assert_eq!(SectionPosIndex::from_parts(3, 5, 2).value(), 1315);
}

#[test]
fn magnitude_modulo_convention() {
    // A global coordinate of -1 maps to local 1, not to 15.
    let idx = SectionPosIndex::from_block_pos(BlockPosition { x: -1, y: 2, z: -17 });
    assert_eq!(idx.into_parts(), (1, 2, 1));
}

#[test]
fn section_rejects_out_of_bounds() {
    let mut s = AxolotlBlockSection::new();
    let r = s.set_block(SectionPosIndex(5000), 1);
    assert!(matches!(r, Err(InvalidChunkSection::OutOfBounds)));
}

#[test]
fn section_rejects_invalid_data() {
    let mut s = AxolotlBlockSection::new();
    let r = s.set_block(SectionPosIndex(3), usize::MAX);
    assert!(matches!(r, Err(InvalidChunkSection::InvalidData(_))));
}

#[test]
fn section_set_get() {
    let mut s = AxolotlBlockSection::new();
    let idx = SectionPosIndex::from_parts(3, 5, 2);
    s.set_block(idx, 42).unwrap();
    assert_eq!(s.get_block(idx), Some(42));
    assert_eq!(s.get_block(SectionPosIndex::from_parts(0, 0, 0)), Some(0));
}

#[test]
fn biome_requires_registered_key() {
    let mut sec = AxolotlChunkSection::new(0);
    let registry = vec![OwnedNameSpaceKey::new("minecraft".to_string(), "plains".to_string())];
    let ok = sec.set_biome(
        OwnedNameSpaceKey::new("minecraft".to_string(), "plains".to_string()),
        &registry,
    );
    assert!(ok.is_ok());
    let missing = sec.set_biome(
        OwnedNameSpaceKey::new("minecraft".to_string(), "desert".to_string()),
        &registry,
    );
    assert!(matches!(missing, Err(InvalidChunkSection::InvalidNamespaceKey(_))));
}

#[test]
fn build_rejects_crossed_clamp() {
    let loader = DensityLoader::new();
    let def = FunctionArgument::Clamp(Box::new(FunctionArgument::Number(0)), 5, -5);
    assert!(matches!(build_function(&def, &loader), Err(BuildDefResult::InvalidFormat)));
}

#[test]
fn build_rejects_negative_amplitude() {
    let loader = DensityLoader::new();
    let def = FunctionArgument::Noise(-1);
    assert!(matches!(build_function(&def, &loader), Err(BuildDefResult::DescriptiveError(_))));
}

#[test]
fn build_reports_unresolved_reference() {
    let loader = DensityLoader::new();
    let def = FunctionArgument::Key(OwnedNameSpaceKey::new(
        "minecraft".to_string(),
        "overworld_base".to_string(),
    ));
    assert!(matches!(build_function(&def, &loader), Err(BuildDefResult::NotFound(_))));
}

#[test]
fn build_resolves_registered_reference() {
    let mut loader = DensityLoader::new();
    let key = OwnedNameSpaceKey::new("minecraft".to_string(), "three".to_string());
    loader.register(key.duplicate(), &FunctionArgument::Number(3)).unwrap();
    let def = FunctionArgument::TwoParam(
        TwoParamKind::Add,
        Box::new(FunctionArgument::Key(key)),
        Box::new(FunctionArgument::Number(4)),
    );
    let mut f = build_function(&def, &loader).unwrap();
    let pass = GenPass { seed: 1, chunk_x: 0, chunk_z: 0 };
    let ctx = ChunkContext { chunk_x: 0, chunk_z: 0, y: 0 };
    assert_eq!(f.compute(&pass, &ctx), 7);
}

#[test]
fn builtin_compute_and_bounds() {
    let loader = DensityLoader::new();
    let def = FunctionArgument::Clamp(
        Box::new(FunctionArgument::TwoParam(
            TwoParamKind::Add,
            Box::new(FunctionArgument::Number(10)),
            Box::new(FunctionArgument::Number(-3)),
        )),
        0,
        5,
    );
    let mut f = build_function(&def, &loader).unwrap();
    let pass = GenPass { seed: 7, chunk_x: 0, chunk_z: 0 };
    let ctx = ChunkContext { chunk_x: 9, chunk_z: -4, y: 11 };
    // 10 + (-3) clamped into [0, 5]: the value is constant, so the static
    // bounds collapse onto it.
    assert_eq!(f.compute(&pass, &ctx), 5);
    assert_eq!(f.min(), 5);
    assert_eq!(f.max(), 5);

    let ranged = FunctionArgument::Clamp(Box::new(FunctionArgument::Noise(10)), 0, 5);
    let f = build_function(&ranged, &loader).unwrap();
    assert_eq!(f.min(), 0);
    assert_eq!(f.max(), 5);
}

#[test]
fn noise_stays_in_bounds_and_is_deterministic() {
    let f1 = Function::Noise(NoiseFunction { amplitude: 10 });
    let mut f2 = Function::Noise(NoiseFunction { amplitude: 10 });
    assert_eq!(f1.min(), -10);
    assert_eq!(f1.max(), 10);
    let pass = GenPass { seed: 99, chunk_x: 0, chunk_z: 0 };
    let mut f1 = f1;
    for x in -4..4 {
        for y in -4..4 {
            let ctx = ChunkContext { chunk_x: x, chunk_z: -x, y };
            let a = f1.compute(&pass, &ctx);
            let b = f2.compute(&pass, &ctx);
            assert_eq!(a, b);
            assert!(a >= -10 && a <= 10);
        }
    }
}

#[test]
fn flat_cache_child_runs_once_per_column() {
    let child = Function::Noise(NoiseFunction { amplitude: 100 });
    let mut cache = FlatCache::new(child);
    let pass = GenPass { seed: 5, chunk_x: 0, chunk_z: 0 };
    let mut first = None;
    for y in 0..64 {
        let ctx = ChunkContext { chunk_x: 3, chunk_z: 4, y };
        let v = cache.compute(&pass, &ctx);
        match first {
            None => first = Some(v),
            Some(f) => assert_eq!(v, f),
        }
    }
    assert_eq!(cache.child_computes, 1);
    // A second column computes the child a second time, the first stays
    // cached.
    let ctx = ChunkContext { chunk_x: 9, chunk_z: 4, y: 0 };
    cache.compute(&pass, &ctx);
    assert_eq!(cache.child_computes, 2);
    let ctx = ChunkContext { chunk_x: 3, chunk_z: 4, y: 63 };
    cache.compute(&pass, &ctx);
    assert_eq!(cache.child_computes, 2);
    // A new pass invalidates every memo.
    let pass2 = GenPass { seed: 5, chunk_x: 1, chunk_z: 0 };
    cache.compute(&pass2, &ChunkContext { chunk_x: 3, chunk_z: 4, y: 0 });
    assert_eq!(cache.child_computes, 3);
}

#[test]
fn once_cache_child_runs_once_per_lifetime() {
    let child = Function::Noise(NoiseFunction { amplitude: 100 });
    let mut cache = OnceCache::new(child);
    let pass = GenPass { seed: 5, chunk_x: 0, chunk_z: 0 };
    let mut first = None;
    for x in 0..8 {
        for y in 0..8 {
            let ctx = ChunkContext { chunk_x: x, chunk_z: -x, y };
            let v = cache.compute(&pass, &ctx);
            match first {
                None => first = Some(v),
                Some(f) => assert_eq!(v, f),
            }
        }
    }
    // Another region of the same seed still reuses the value.
    let pass2 = GenPass { seed: 5, chunk_x: 9, chunk_z: 9 };
    let v = cache.compute(&pass2, &ChunkContext { chunk_x: 100, chunk_z: 100, y: 50 });
    assert_eq!(Some(v), first);
    assert_eq!(cache.child_computes, 1);
}

fn flat_settings(default_block: usize) -> Settings {
    Settings {
        noise: NoiseSetting {
            density: FunctionArgument::FlatCache(Box::new(FunctionArgument::Noise(50))),
            default_block,
        },
        biome_source: BiomeSourceSettings {
            biome: OwnedNameSpaceKey::new("minecraft".to_string(), "plains".to_string()),
        },
    }
}

#[test]
fn generation_is_deterministic() {
    let loader = DensityLoader::new();
    let mut g1 = NoiseGenerator::new(flat_settings(7), 1234, &loader).unwrap();
    let mut g2 = NoiseGenerator::new(flat_settings(7), 1234, &loader).unwrap();
    let c1 = g1.generate_chunk(2, -3);
    let c2 = g2.generate_chunk(2, -3);
    for y in 0..64 {
        for x in 0..16 {
            for z in 0..16 {
                let pos = BlockPosition { x, y, z };
                assert_eq!(c1.get_block(pos), c2.get_block(pos));
            }
        }
    }
    // A second pass of the same generator agrees with a fresh one.
    let c3 = g1.generate_chunk(2, -3);
    let pos = BlockPosition { x: 5, y: 9, z: 14 };
    assert_eq!(c3.get_block(pos), c1.get_block(pos));
}

#[test]
fn generation_follows_density_sign() {
    let loader = DensityLoader::new();
    let solid = Settings {
        noise: NoiseSetting { density: FunctionArgument::Number(1), default_block: 9 },
        biome_source: BiomeSourceSettings {
            biome: OwnedNameSpaceKey::new("minecraft".to_string(), "plains".to_string()),
        },
    };
    let mut g = NoiseGenerator::new(solid, 0, &loader).unwrap();
    let c = g.generate_chunk(0, 0);
    assert_eq!(c.get_block(BlockPosition { x: 0, y: 0, z: 0 }), Some(9));
    assert_eq!(c.get_block(BlockPosition { x: 15, y: 63, z: 15 }), Some(9));
    assert_eq!(c.get_block(BlockPosition { x: 0, y: 64, z: 0 }), None);

    let air = Settings {
        noise: NoiseSetting { density: FunctionArgument::Number(0), default_block: 9 },
        biome_source: BiomeSourceSettings {
            biome: OwnedNameSpaceKey::new("minecraft".to_string(), "plains".to_string()),
        },
    };
    let mut g = NoiseGenerator::new(air, 0, &loader).unwrap();
    let c = g.generate_chunk(0, 0);
    assert_eq!(c.get_block(BlockPosition { x: 3, y: 10, z: 3 }), Some(0));
}

#[test]
fn generator_rejects_unresolvable_default_block() {
    let loader = DensityLoader::new();
    let mut s = flat_settings(7);
    s.noise.default_block = usize::MAX;
    assert!(NoiseGenerator::new(s, 1, &loader).is_err());
}

#[test]
fn unary_builtins_compute() {
    let loader = DensityLoader::new();
    let abs = FunctionArgument::OneParam(
        OneParamKind::Abs,
        Box::new(FunctionArgument::Number(-9)),
    );
    let mut f = build_function(&abs, &loader).unwrap();
    let pass = GenPass { seed: 0, chunk_x: 0, chunk_z: 0 };
    let ctx = ChunkContext { chunk_x: 0, chunk_z: 0, y: 0 };
    assert_eq!(f.compute(&pass, &ctx), 9);
    let neg = FunctionArgument::OneParam(
        OneParamKind::Negate,
        Box::new(FunctionArgument::Number(4)),
    );
    let mut f = build_function(&neg, &loader).unwrap();
    assert_eq!(f.compute(&pass, &ctx), -4);
}

#[test]
fn binary_min_max_compute() {
    let loader = DensityLoader::new();
    let pass = GenPass { seed: 0, chunk_x: 0, chunk_z: 0 };
    let ctx = ChunkContext { chunk_x: 0, chunk_z: 0, y: 0 };
    let min = FunctionArgument::TwoParam(
        TwoParamKind::Min,
        Box::new(FunctionArgument::Number(3)),
        Box::new(FunctionArgument::Number(-2)),
    );
    let mut f = build_function(&min, &loader).unwrap();
    assert_eq!(f.compute(&pass, &ctx), -2);
    let max = FunctionArgument::TwoParam(
        TwoParamKind::Max,
        Box::new(FunctionArgument::Number(3)),
        Box::new(FunctionArgument::Number(-2)),
    );
    let mut f = build_function(&max, &loader).unwrap();
    assert_eq!(f.compute(&pass, &ctx), 3);
}

#[test]
fn interpolated_samples_aligned_grid() {
    // The interpolated node samples its child on the 4-aligned grid, so
    // every position inside one grid cell yields the same value.
    let loader = DensityLoader::new();
    let def = FunctionArgument::Interpolated(Box::new(FunctionArgument::Noise(1000)));
    let mut f = build_function(&def, &loader).unwrap();
    let pass = GenPass { seed: 31, chunk_x: 0, chunk_z: 0 };
    let base = f.compute(&pass, &ChunkContext { chunk_x: 4, chunk_z: 8, y: 12 });
    for dx in 0..4 {
        for dy in 0..4 {
            let ctx = ChunkContext { chunk_x: 4 + dx, chunk_z: 8, y: 12 + dy };
            assert_eq!(f.compute(&pass, &ctx), base);
        }
    }
    let other = f.compute(&pass, &ChunkContext { chunk_x: 8, chunk_z: 8, y: 12 });
    let _ = other;
}

#[test]
fn cell_cache_reuses_within_cell() {
    let loader = DensityLoader::new();
    let def = FunctionArgument::AllInCellCache(Box::new(FunctionArgument::Noise(1000)));
    let mut f = build_function(&def, &loader).unwrap();
    let pass = GenPass { seed: 8, chunk_x: 0, chunk_z: 0 };
    let base = f.compute(&pass, &ChunkContext { chunk_x: 16, chunk_z: 32, y: 0 });
    for d in 0..16 {
        let ctx = ChunkContext { chunk_x: 16 + d, chunk_z: 32, y: d as i16 };
        assert_eq!(f.compute(&pass, &ctx), base);
    }
}

#[test]
fn two_d_cache_reuses_last_column() {
    let loader = DensityLoader::new();
    let def = FunctionArgument::TwoDCellCache(Box::new(FunctionArgument::Noise(1000)));
    let mut f = build_function(&def, &loader).unwrap();
    let pass = GenPass { seed: 8, chunk_x: 0, chunk_z: 0 };
    let a = f.compute(&pass, &ChunkContext { chunk_x: 1, chunk_z: 2, y: 0 });
    let b = f.compute(&pass, &ChunkContext { chunk_x: 1, chunk_z: 2, y: 50 });
    assert_eq!(a, b);
}

#[test]
fn once_cache_via_builder() {
    let loader = DensityLoader::new();
    let def = FunctionArgument::OnceCache(Box::new(FunctionArgument::Noise(1000)));
    let mut f = build_function(&def, &loader).unwrap();
    let pass = GenPass { seed: 3, chunk_x: 0, chunk_z: 0 };
    let a = f.compute(&pass, &ChunkContext { chunk_x: 7, chunk_z: -7, y: 30 });
    let b = f.compute(&pass, &ChunkContext { chunk_x: -3, chunk_z: 12, y: 1 });
    assert_eq!(a, b);
}
