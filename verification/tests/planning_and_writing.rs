use tensor_container::catalog::{
    build_catalog, build_plan, copy_shape, same_shape, Catalog, QuantizeInfo, QuantizeKey,
    QuantizeTreatment,
};
use tensor_container::container::{
    assemble, assemble_checked, build_header, push_bytes, push_zeros, serialize_container,
    HeaderEntry,
};
use tensor_container::dtype::{dtype_from_str, dtype_str, Dtype};
use tensor_container::header::read_header;
use tensor_container::layout::{next_multiple_of, TensorPlaner, TensorPlanerTensor};
use tensor_container::tensors::{load_tensors, TensorInfo, WhereTheSliceStarts};
use tensor_container::transform::{
    blocking_dim, dispatch, dispatch_under_plan, transformed_bytes, ConvertError, Dispatch,
    TransformFault,
};
use tensor_container::writer::ContainerWriter;

#[test]
fn rounding_up() {
    assert_eq!(next_multiple_of(0, 8), 0);
    assert_eq!(next_multiple_of(1, 8), 8);
    assert_eq!(next_multiple_of(8, 8), 8);
    assert_eq!(next_multiple_of(9, 8), 16);
    assert_eq!(next_multiple_of(13, 1), 13);
    assert_eq!(next_multiple_of(13, 4), 16);
    assert_eq!(next_multiple_of(5, 7), 7);
    assert_eq!(next_multiple_of(usize::MAX, 1), usize::MAX);
    assert_eq!(next_multiple_of(usize::MAX - 15, 16), usize::MAX - 15);
}

#[test]
fn planned_writes_are_aligned_and_in_order() {
    let mut planner = TensorPlaner::new();
    assert_eq!(planner.plan_write(4, vec![1, 2, 3].into()), (0, 3));
    assert_eq!(planner.plan_write(4, vec![4, 5, 6, 7, 8].into()), (4, 9));
    assert_eq!(planner.plan_write(2, vec![].into()), (10, 10));
    assert_eq!(planner.plan_write(8, vec![9].into()), (16, 17));
    assert_eq!(planner.plan_write(1, vec![10, 11].into()), (17, 19));
    assert_eq!(planner.free_offset, 19);
    let paddings: Vec<usize> = planner.tensors.iter().map(|t| t.leading_padding).collect();
    assert_eq!(paddings, vec![0, 1, 1, 6, 0]);
    assert_eq!(planner.tensors[1].data, vec![4u8, 5, 6, 7, 8]);
}

#[test]
fn planning_is_deterministic() {
    let mut a = TensorPlaner::new();
    let mut b = TensorPlaner::new();
    for (alignment, len) in [(4usize, 3usize), (8, 5), (2, 7), (4, 0), (1, 1)] {
        assert_eq!(a.plan_write(alignment, vec![0; len].into()), b.plan_write(alignment, vec![0; len].into()));
    }
    assert_eq!(a.free_offset, b.free_offset);
}

#[test]
fn planning_refuses_what_does_not_fit() {
    let mut planner = TensorPlaner::new();
    assert_eq!(planner.try_plan_write(0, vec![1].into()), None);
    assert_eq!(planner.try_plan_write(4, vec![1].into()), Some((0, 1)));
    assert_eq!(planner.tensors.len(), 1);

    let mut planner = TensorPlaner {
        free_offset: usize::MAX - 1,
        tensors: vec![TensorPlanerTensor { leading_padding: usize::MAX - 1, data: vec![].into() }],
    };
    assert_eq!(planner.try_plan_write(4, vec![1].into()), None);
    assert_eq!(planner.try_plan_write(1, vec![1, 2].into()), None);
    assert_eq!(planner.try_plan_write(0, vec![].into()), None);
    assert_eq!(planner.tensors.len(), 1);
    assert_eq!(planner.free_offset, usize::MAX - 1);
    assert_eq!(planner.try_plan_write(1, vec![1].into()), Some((usize::MAX - 1, usize::MAX)));
    assert_eq!(planner.try_plan_write(1, vec![].into()), Some((usize::MAX, usize::MAX)));
    assert_eq!(planner.try_plan_write(2, vec![].into()), None);
}

#[test]
fn assembled_bytes() {
    let mut planner = TensorPlaner::new();
    planner.plan_write(2, vec![1, 2, 3].into());
    planner.plan_write(4, vec![4].into());
    let bytes = assemble(b"{\"a\":1}", &planner);
    let mut expected = vec![8u8, 0, 0, 0, 0, 0, 0, 0];
    expected.extend_from_slice(b"{\"a\":1}\0");
    expected.extend_from_slice(&[1, 2, 3, 0, 4]);
    assert_eq!(bytes, expected);

    let bytes = assemble(b"{\"ab\":1}", &TensorPlaner::new());
    let mut expected = vec![8u8, 0, 0, 0, 0, 0, 0, 0];
    expected.extend_from_slice(b"{\"ab\":1}");
    assert_eq!(bytes, expected);

    let bytes = assemble(b"{\"abc\":1}", &TensorPlaner::new());
    assert_eq!(&bytes[..8], &[16u8, 0, 0, 0, 0, 0, 0, 0]);
    assert_eq!(&bytes[8..17], b"{\"abc\":1}");
    assert_eq!(&bytes[17..], &[0u8; 7]);
}

#[test]
fn header_padding_is_zero_and_a_multiple_of_eight() {
    for extra in 0..20usize {
        let mut writer = ContainerWriter::new();
        let name = "n".repeat(extra + 1);
        writer.add(name, "U8".to_string(), vec![1], 1, vec![42].into()).unwrap();
        let bytes = writer.finish(&None).unwrap();
        let declared = u64::from_le_bytes(bytes[..8].try_into().unwrap()) as usize;
        assert_eq!(declared % 8, 0);
        let region = &bytes[8..8 + declared];
        let json_len = region.iter().rposition(|b| *b == b'}').unwrap() + 1;
        assert!(declared - json_len < 8);
        assert!(region[json_len..].iter().all(|b| *b == 0));
        assert_eq!(bytes.len(), 8 + declared + 1);
        assert_eq!(bytes[8 + declared], 42);
    }
}

#[test]
fn built_header_holds_the_entries() {
    let entries = vec![
        HeaderEntry {
            name: "w".to_string(),
            dtype: "F32".to_string(),
            shape: vec![4, 4],
            data_offsets: (0, 64),
        },
        HeaderEntry {
            name: "b".to_string(),
            dtype: "q4_0".to_string(),
            shape: vec![],
            data_offsets: (64, 70),
        },
    ];
    let metadata = Some(vec![("producer".to_string(), "x".to_string())]);
    let h = build_header(&metadata, &entries);
    assert_eq!(h.as_object().unwrap().len(), 3);
    assert_eq!(h["__metadata__"]["producer"], "x");
    assert_eq!(h["w"]["dtype"], "F32");
    assert_eq!(h["w"]["shape"][0], 4);
    assert_eq!(h["w"]["shape"][1], 4);
    assert_eq!(h["w"]["data_offsets"][0], 0);
    assert_eq!(h["w"]["data_offsets"][1], 64);
    assert_eq!(h["b"]["dtype"], "q4_0");
    assert_eq!(h["b"]["shape"].as_array().unwrap().len(), 0);
    let h = build_header(&None, &entries);
    assert!(h.get("__metadata__").is_none());
    assert_eq!(h.as_object().unwrap().len(), 2);
}

#[test]
fn written_container_reads_back() {
    let mut writer = ContainerWriter::new();
    let a: Vec<u8> = (0..5).collect();
    let b: Vec<u8> = (100..116).collect();
    let c: Vec<u8> = vec![7; 3];
    assert_eq!(writer.add("a".to_string(), "U8".to_string(), vec![5], 1, a.clone().into()), Some((0, 5)));
    assert_eq!(
        writer.add("b".to_string(), "F32".to_string(), vec![2, 2], 4, b.clone().into()),
        Some((8, 24))
    );
    assert_eq!(
        writer.add("c".to_string(), "q5_0".to_string(), vec![1, 3], 2, c.clone().into()),
        Some((24, 27))
    );
    assert_eq!(writer.add("d".to_string(), "U8".to_string(), vec![1], 0, vec![1].into()), None);
    let metadata = Some(vec![("k".to_string(), "v".to_string())]);
    let bytes = serialize_container(&metadata, &writer.entries, &writer.planner).unwrap();
    assert_eq!(bytes, writer.finish(&metadata).unwrap());

    let header = read_header(&bytes).unwrap();
    assert_eq!(header.offset_end_of_header % 8, 0);
    assert_eq!(header.data["__metadata__"]["k"], "v");
    let tensors = load_tensors(&header, &bytes, WhereTheSliceStarts::StartOfFile).unwrap();
    assert_eq!(tensors.len(), 3);
    for (name, dtype, shape, data) in [
        ("a", "U8", vec![5usize], &a),
        ("b", "F32", vec![2, 2], &b),
        ("c", "q5_0", vec![1, 3], &c),
    ] {
        let t = &tensors.iter().find(|t| t.0 == name).unwrap().1;
        assert_eq!(t.dtype, dtype);
        assert_eq!(t.shape, shape);
        assert_eq!(t.data, &data[..]);
    }
}

#[test]
fn end_to_end_keep() {
    let payload: Vec<u8> = (0..64).collect();
    let mut source = ContainerWriter::new();
    source.add("w".to_string(), "F32".to_string(), vec![4, 4], 4, payload.clone().into()).unwrap();
    let input = source.finish(&Some(vec![("producer".to_string(), "x".to_string())])).unwrap();

    let header = read_header(&input).unwrap();
    let tensors = load_tensors(&header, &input, WhereTheSliceStarts::StartOfFile).unwrap();
    let catalog = build_catalog(&tensors);
    assert_eq!(catalog.keys.len(), 1);
    assert_eq!(catalog.keys[0].dtype, "F32");
    assert_eq!(catalog.keys[0].shape, vec![4, 4]);
    assert_eq!(catalog.infos[0].count, 1);
    assert_eq!(catalog.infos[0].treatment, QuantizeTreatment::keep);

    let mut out = ContainerWriter::new();
    for (name, tensor) in &tensors {
        let dtype = dtype_from_str(&tensor.dtype).unwrap();
        let decision =
            dispatch_under_plan(&catalog, dtype, &tensor.shape, tensor.data.len()).unwrap();
        assert_eq!(decision, Dispatch::PassThrough { dtype: Dtype::F32, alignment: 4 });
        let range =
            out.add_decided(name.clone(), tensor.shape.clone(), decision, tensor.data.into());
        assert_eq!(range, Some((0, 64)));
    }
    let output = out.finish(&Some(vec![("producer".to_string(), "x".to_string())])).unwrap();

    let declared = u64::from_le_bytes(output[..8].try_into().unwrap());
    assert_eq!(declared % 8, 0);
    let header = read_header(&output).unwrap();
    assert_eq!(header.offset_end_of_header as u64, 8 + declared);
    assert_eq!(header.data["__metadata__"]["producer"], "x");
    assert_eq!(header.data["w"]["data_offsets"][0], 0);
    assert_eq!(header.data["w"]["data_offsets"][1], 64);
    let again = load_tensors(&header, &output, WhereTheSliceStarts::StartOfFile).unwrap();
    assert_eq!(again.len(), 1);
    assert_eq!(again[0].0, "w");
    assert_eq!(again[0].1.dtype, "F32");
    assert_eq!(again[0].1.shape, vec![4, 4]);
    assert_eq!(again[0].1.data, &payload[..]);
}

fn tensor<'a>(name: &str, dtype: &str, shape: &[usize], data: &'a [u8]) -> (String, TensorInfo<'a>) {
    (name.to_string(), TensorInfo { dtype: dtype.to_string(), shape: shape.to_vec(), data })
}

fn counts(tensors: &Vec<(String, TensorInfo)>) -> Vec<(String, Vec<usize>, usize)> {
    let catalog = build_catalog(tensors);
    let mut out: Vec<(String, Vec<usize>, usize)> = Vec::new();
    for (key, info) in catalog.keys.iter().zip(catalog.infos.iter()) {
        assert_eq!(info.treatment, QuantizeTreatment::keep);
        out.push((key.dtype.clone(), key.shape.clone(), info.count));
    }
    out.sort();
    out
}

#[test]
fn catalog_counts_shape_classes() {
    let data = [0u8; 4];
    let tensors = vec![
        tensor("a", "F32", &[2, 2], &data),
        tensor("b", "F16", &[2, 2], &data),
        tensor("c", "F32", &[2, 2], &data),
        tensor("d", "F32", &[4], &data),
        tensor("e", "F32", &[2, 2], &data[..1]),
        tensor("f", "F32", &[], &data),
    ];
    assert_eq!(
        counts(&tensors),
        vec![
            ("F16".to_string(), vec![2, 2], 1),
            ("F32".to_string(), vec![], 1),
            ("F32".to_string(), vec![2, 2], 3),
            ("F32".to_string(), vec![4], 1),
        ]
    );
    assert!(counts(&Vec::new()).is_empty());
}

#[test]
fn catalog_ignores_names_and_order() {
    let data = [0u8; 4];
    let first = vec![
        tensor("a", "F32", &[2, 2], &data),
        tensor("b", "F16", &[2, 2], &data),
        tensor("c", "F32", &[2, 2], &data),
        tensor("d", "F32", &[4], &data),
    ];
    let second = vec![
        tensor("z", "F32", &[4], &data[..2]),
        tensor("y", "F32", &[2, 2], &data),
        tensor("x", "F32", &[2, 2], &data),
        tensor("w", "F16", &[2, 2], &data[..0]),
    ];
    assert_eq!(counts(&first), counts(&second));
    assert_eq!(counts(&first), counts(&first));
}

#[test]
fn catalog_lookup() {
    let data = [0u8; 4];
    let tensors = vec![tensor("a", "F32", &[2, 2], &data), tensor("b", "F16", &[2], &data)];
    let catalog = build_catalog(&tensors);
    assert_eq!(catalog.find(&"F32".to_string(), &vec![2, 2]), Some(0));
    assert_eq!(catalog.find(&"F16".to_string(), &vec![2]), Some(1));
    assert_eq!(catalog.find(&"F16".to_string(), &vec![2, 2]), None);
    assert_eq!(catalog.find(&"f32".to_string(), &vec![2, 2]), None);
    assert!(same_shape(&vec![], &vec![]));
    assert!(!same_shape(&vec![1], &vec![]));
    assert!(!same_shape(&vec![1, 2], &vec![1, 3]));
}

#[test]
fn tags_and_sizes() {
    let all = [
        (Dtype::BOOL, "BOOL", 1usize),
        (Dtype::U8, "U8", 1),
        (Dtype::I8, "I8", 1),
        (Dtype::I16, "I16", 2),
        (Dtype::U16, "U16", 2),
        (Dtype::F16, "F16", 2),
        (Dtype::BF16, "BF16", 2),
        (Dtype::I32, "I32", 4),
        (Dtype::U32, "U32", 4),
        (Dtype::F32, "F32", 4),
        (Dtype::F64, "F64", 8),
        (Dtype::I64, "I64", 8),
        (Dtype::U64, "U64", 8),
    ];
    for (dtype, tag, size) in all {
        assert_eq!(dtype_str(&dtype), tag);
        assert_eq!(dtype_from_str(tag), Some(dtype));
        assert_eq!(dtype.size(), size);
        assert_eq!(dtype.layout().alignment, size);
        assert_eq!(dtype.layout().size, size);
    }
    assert_eq!(dtype_from_str("f32"), None);
    assert_eq!(dtype_from_str("q4_0"), None);
    assert_eq!(dtype_from_str(""), None);
}

#[test]
fn treatments_have_fixed_tags_and_alignments() {
    let table = [
        (QuantizeTreatment::q4_0, "q4_0", 4usize),
        (QuantizeTreatment::q4_1, "q4_1", 4),
        (QuantizeTreatment::q8_0, "q8_0", 4),
        (QuantizeTreatment::q5_0, "q5_0", 2),
        (QuantizeTreatment::q5_1, "q5_1", 2),
    ];
    for (treatment, tag, alignment) in table {
        assert_eq!(treatment.tag(), tag);
        assert_eq!(treatment.alignment(), alignment);
    }
    assert_eq!(QuantizeTreatment::keep.tag(), "keep");
}

#[test]
fn dispatch_keeps_or_hands_over() {
    assert_eq!(
        dispatch(Dtype::F16, &vec![3], 6, QuantizeTreatment::keep),
        Ok(Dispatch::PassThrough { dtype: Dtype::F16, alignment: 2 })
    );
    assert_eq!(
        dispatch(Dtype::F32, &vec![1, 1], 7, QuantizeTreatment::keep),
        Ok(Dispatch::PassThrough { dtype: Dtype::F32, alignment: 4 })
    );
    assert_eq!(
        dispatch(Dtype::F32, &vec![1, 32, 2], 256, QuantizeTreatment::q4_0),
        Ok(Dispatch::Transform {
            treatment: QuantizeTreatment::q4_0,
            n_elem: 64,
            ne_0: 32,
            work_len: 256
        })
    );
    assert_eq!(
        dispatch(Dtype::F32, &vec![0, 5], 0, QuantizeTreatment::q5_1),
        Ok(Dispatch::Transform {
            treatment: QuantizeTreatment::q5_1,
            n_elem: 0,
            ne_0: 0,
            work_len: 0
        })
    );
}

#[test]
fn dispatch_faults_in_order() {
    assert_eq!(
        dispatch(Dtype::F16, &vec![1], 3, QuantizeTreatment::q4_0),
        Err(TransformFault::SourceNotF32)
    );
    assert_eq!(
        dispatch(Dtype::F32, &vec![1], 3, QuantizeTreatment::q4_1),
        Err(TransformFault::PartialElement)
    );
    assert_eq!(
        dispatch(Dtype::F32, &vec![1, 1], 4, QuantizeTreatment::q8_0),
        Err(TransformFault::NoBlockingDim)
    );
    assert_eq!(
        dispatch(Dtype::F32, &vec![], 4, QuantizeTreatment::q5_0),
        Err(TransformFault::NoBlockingDim)
    );
    assert_eq!(
        dispatch(Dtype::F32, &vec![1, 2147483648], 8, QuantizeTreatment::q5_0),
        Err(TransformFault::CountOutOfRange)
    );
    assert_eq!(blocking_dim(&vec![1, 1, 7, 1, 9]), Some(7));
    assert_eq!(blocking_dim(&vec![0]), Some(0));
    assert_eq!(blocking_dim(&vec![1]), None);
}

#[test]
fn plan_lookup_miss_is_an_error() {
    let data = [0u8; 16];
    let tensors = vec![tensor("a", "F32", &[2, 2], &data)];
    let mut catalog = build_catalog(&tensors);
    match dispatch_under_plan(&catalog, Dtype::F32, &vec![4], 16) {
        Err(ConvertError::PlanLookupMiss { dtype, shape }) => {
            assert_eq!(dtype, "F32");
            assert_eq!(shape, vec![4]);
        }
        other => panic!("unexpected: {other:?}"),
    }
    assert!(matches!(
        dispatch_under_plan(&catalog, Dtype::F16, &vec![2, 2], 8),
        Err(ConvertError::PlanLookupMiss { .. })
    ));
    catalog.infos[0].treatment = QuantizeTreatment::q8_0;
    assert_eq!(
        dispatch_under_plan(&catalog, Dtype::F32, &vec![2, 2], 16).unwrap(),
        Dispatch::Transform {
            treatment: QuantizeTreatment::q8_0,
            n_elem: 4,
            ne_0: 2,
            work_len: 16
        }
    );
    assert!(matches!(
        dispatch_under_plan(&catalog, Dtype::F32, &vec![2, 2], 15),
        Err(ConvertError::UnsupportedTransformInput(TransformFault::PartialElement))
    ));
}

#[test]
fn transformed_bytes_are_the_front_of_the_work_buffer() {
    assert_eq!(transformed_bytes(&[1, 2, 3, 4], 3), vec![1, 2, 3]);
    assert_eq!(transformed_bytes(&[1, 2, 3, 4], 0), Vec::<u8>::new());
    assert_eq!(transformed_bytes(&[1, 2, 3, 4], 4), vec![1, 2, 3, 4]);
}

#[test]
fn plan_carries_the_metadata() {
    let data = [0u8; 4];
    let tensors = vec![tensor("a", "F32", &[2, 2], &data), tensor("b", "F32", &[2, 2], &data)];
    let metadata = Some(vec![("producer".to_string(), "x".to_string())]);
    let plan = build_plan(metadata.clone(), &tensors);
    assert_eq!(plan.metadata, metadata);
    assert_eq!(plan.catalog.keys.len(), 1);
    assert_eq!(plan.catalog.infos[0].count, 2);
    assert_eq!(plan.catalog.infos[0].treatment, QuantizeTreatment::keep);
    assert!(plan.catalog.is_wf());
    assert_eq!(build_plan(None, &tensors).metadata, None);
}

#[test]
fn catalog_with_a_class_twice_is_not_well_formed() {
    let key = |dtype: &str, shape: &[usize]| QuantizeKey {
        dtype: dtype.to_string(),
        shape: shape.to_vec(),
    };
    let info = QuantizeInfo { count: 1, treatment: QuantizeTreatment::keep };
    let good = Catalog {
        keys: vec![key("F32", &[2]), key("F32", &[2, 1]), key("F16", &[2])],
        infos: vec![info, info, info],
    };
    assert!(good.is_wf());
    let twice = Catalog {
        keys: vec![key("F32", &[2]), key("F16", &[2]), key("F32", &[2])],
        infos: vec![info, info, info],
    };
    assert!(!twice.is_wf());
    let uneven = Catalog { keys: vec![key("F32", &[2])], infos: vec![] };
    assert!(!uneven.is_wf());
    assert!(Catalog { keys: vec![], infos: vec![] }.is_wf());
}

#[test]
fn decided_tensors_carry_the_tag_and_alignment_of_the_decision() {
    let mut writer = ContainerWriter::new();
    let kept = Dispatch::PassThrough { dtype: Dtype::I16, alignment: 2 };
    assert_eq!(writer.add_decided("a".to_string(), vec![3], kept, vec![1; 5].into()), Some((0, 5)));
    let q4 = Dispatch::Transform {
        treatment: QuantizeTreatment::q4_0,
        n_elem: 32,
        ne_0: 32,
        work_len: 128,
    };
    assert_eq!(writer.add_decided("b".to_string(), vec![1, 32], q4, vec![2; 20].into()), Some((8, 28)));
    let q5 = Dispatch::Transform {
        treatment: QuantizeTreatment::q5_1,
        n_elem: 32,
        ne_0: 32,
        work_len: 128,
    };
    assert_eq!(writer.add_decided("c".to_string(), vec![32], q5, vec![3; 1].into()), Some((28, 29)));
    assert_eq!(writer.add_decided("d".to_string(), vec![32], q5, vec![4; 2].into()), Some((30, 32)));
    let tags: Vec<&str> = writer.entries.iter().map(|e| e.dtype.as_str()).collect();
    assert_eq!(tags, vec!["I16", "q4_0", "q5_1", "q5_1"]);
    let offsets: Vec<(usize, usize)> = writer.entries.iter().map(|e| e.data_offsets).collect();
    assert_eq!(offsets, vec![(0, 5), (8, 28), (28, 29), (30, 32)]);
    assert_eq!(writer.entries[1].shape, vec![1, 32]);

    let bytes = writer.finish(&None).unwrap();
    let header = read_header(&bytes).unwrap();
    let tensors = load_tensors(&header, &bytes, WhereTheSliceStarts::StartOfFile).unwrap();
    let b = &tensors.iter().find(|t| t.0 == "b").unwrap().1;
    assert_eq!(b.dtype, "q4_0");
    assert_eq!(b.data, &[2u8; 20]);
    let d = &tensors.iter().find(|t| t.0 == "d").unwrap().1;
    assert_eq!(d.data, &[4u8; 2]);
}

#[test]
fn later_entry_of_a_name_stands_in_the_header() {
    let entries = vec![
        HeaderEntry { name: "w".to_string(), dtype: "U8".to_string(), shape: vec![1], data_offsets: (0, 1) },
        HeaderEntry { name: "w".to_string(), dtype: "I8".to_string(), shape: vec![2], data_offsets: (1, 3) },
    ];
    let h = build_header(&None, &entries);
    assert_eq!(h.as_object().unwrap().len(), 1);
    assert_eq!(h["w"]["dtype"], "I8");
    assert_eq!(h["w"]["data_offsets"][0], 1);
    let metadata = Some(vec![
        ("k".to_string(), "first".to_string()),
        ("k".to_string(), "second".to_string()),
    ]);
    let h = build_header(&metadata, &Vec::new());
    assert_eq!(h["__metadata__"]["k"], "second");
}

#[test]
fn small_helpers() {
    let mut out = vec![9u8];
    push_zeros(&mut out, 3);
    push_bytes(&mut out, &[1, 2]);
    push_zeros(&mut out, 0);
    push_bytes(&mut out, &[]);
    assert_eq!(out, vec![9, 0, 0, 0, 1, 2]);
    assert_eq!(copy_shape(&vec![3, 1, 4]), vec![3, 1, 4]);
    assert_eq!(copy_shape(&vec![]), Vec::<usize>::new());
    let planner = TensorPlaner::new();
    assert_eq!(assemble_checked(b"{}", &planner).unwrap(), assemble(b"{}", &planner));
    assert_eq!(assemble(b"", &planner), vec![0u8; 8]);
}
