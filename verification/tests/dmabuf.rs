use moq_video::error::Error;
use moq_video::frame::Size;
use moq_video::render::dmabuf::{
    texture_format, va_fourcc, Access, Action, Adoption, DmaBuf, DrmFormat, Exported, Gpu, Import,
    Layer, PlaneLayout, Reply, Texture, Vpp, ABGR8888, ARGB8888, VA_BGRA, VA_BGRX, VA_RGBA,
    VA_RGBX, XBGR8888, XRGB8888,
};
use moq_video::v4l2::fourcc::name;

const DEVICE: Gpu = Gpu {
    dma_buf: true,
    vulkan: true,
    vaapi: true,
};

fn buffer(raw: u32, planes: usize) -> DmaBuf {
    DmaBuf {
        format: DrmFormat { raw },
        modifier: 9,
        size: Size::new(800, 600),
        planes: vec![
            PlaneLayout {
                offset: 4,
                stride: 3328
            };
            planes
        ],
    }
}

fn failure(action: Action) -> String {
    match action {
        Action::Fail(err) => err.message(),
        action => panic!("{action:?}"),
    }
}

#[test]
fn packed_formats_are_sampled_by_their_first_byte() {
    for (raw, texture, fourcc, letters) in [
        (XRGB8888, Texture::Bgra8Unorm, VA_BGRX, "BGRX"),
        (ARGB8888, Texture::Bgra8Unorm, VA_BGRA, "BGRA"),
        (XBGR8888, Texture::Rgba8Unorm, VA_RGBX, "RGBX"),
        (ABGR8888, Texture::Rgba8Unorm, VA_RGBA, "RGBA"),
    ] {
        let format = DrmFormat { raw };
        assert_eq!(texture_format(format), Ok(texture));
        assert_eq!(va_fourcc(format), Ok(fourcc));
        assert_eq!(name(fourcc), letters);
    }
    assert_eq!(
        texture_format(DrmFormat { raw: 0x3231564e })
            .unwrap_err()
            .message(),
        "cannot import DMA-BUF format 0x3231564e"
    );
    assert_eq!(
        va_fourcc(DrmFormat { raw: 0 }).unwrap_err().message(),
        "no VA-API format for DMA-BUF format 0x0"
    );
}

#[test]
fn a_device_that_cannot_import_is_left_alone() {
    let mut import = Import::default();
    let no_feature = Gpu {
        dma_buf: false,
        ..DEVICE
    };
    assert!(matches!(
        import.import(no_feature, buffer(0, 0)),
        Action::Skip
    ));
    let no_vulkan = Gpu {
        vulkan: false,
        ..DEVICE
    };
    assert!(matches!(
        import.import(no_vulkan, buffer(0, 0)),
        Action::Skip
    ));
    assert!(!import.admits(&Reply::Done));
    assert_eq!(
        failure(import.import(DEVICE, buffer(0, 1))),
        "cannot import DMA-BUF format 0x0"
    );
}

#[test]
fn one_plane_is_imported_as_it_is() {
    let mut import = Import::default();
    assert!(matches!(
        import.import(DEVICE, buffer(ARGB8888, 1)),
        Action::Export
    ));
    assert!(matches!(import.step(Reply::Done), Action::Duplicate));
    let Action::Adopt(adoption) = import.step(Reply::Done) else {
        panic!()
    };
    assert_eq!(
        adoption,
        Adoption {
            texture: Texture::Bgra8Unorm,
            size: Size::new(800, 600),
            modifier: 9,
            stride: 3328,
            offset: 4,
            leased: true,
        }
    );
    assert!(matches!(import.step(Reply::Done), Action::Imported));
}

#[test]
fn several_planes_are_retiled() {
    let mut import = Import::default();
    import.import(DEVICE, buffer(XBGR8888, 2));
    import.step(Reply::Done);
    assert!(matches!(import.step(Reply::Done), Action::OpenProcessor));
    assert!(matches!(
        import.step(Reply::Done),
        Action::Retile { fourcc } if fourcc == VA_RGBX
    ));
    assert!(matches!(import.step(Reply::Done), Action::ExportRetiled));
    let exported = Exported {
        objects: vec![77],
        layers: vec![Layer {
            num_planes: 1,
            pitch: 4096,
            offset: 0,
        }],
    };
    let Action::AdoptRetiled(adoption) = import.step(Reply::Retiled(exported)) else {
        panic!()
    };
    assert_eq!(
        adoption,
        Adoption {
            texture: Texture::Rgba8Unorm,
            size: Size::new(800, 600),
            modifier: 77,
            stride: 4096,
            offset: 0,
            leased: false,
        }
    );
    assert!(matches!(import.step(Reply::Done), Action::Imported));

    // The processor is not opened again.
    import.import(DEVICE, buffer(XBGR8888, 1));
    import.step(Reply::Done);
    import.step(Reply::Done);
    assert!(matches!(
        import.step(Reply::Failed("no modifier".to_string())),
        Action::Retile { .. }
    ));
}

#[test]
fn the_processor_is_opened_by_the_first_to_get_it() {
    let mut vpp = Vpp::default();
    assert_eq!(vpp.get(), Ok(Access::Open));
    vpp.opened(true);
    for _ in 0..3 {
        assert_eq!(vpp.get(), Ok(Access::Use));
    }
    let mut vpp = Vpp::default();
    vpp.opened(false);
    for _ in 0..3 {
        assert_eq!(
            vpp.get().unwrap_err().message(),
            "no VA-API video post-processor on this host"
        );
    }
}

#[test]
fn a_host_without_a_processor_pays_once() {
    let mut import = Import::default();
    import.import(DEVICE, buffer(XRGB8888, 3));
    import.step(Reply::Done);
    import.step(Reply::Done);
    let text = "cannot import a 3-plane DMA-BUF as one Vulkan plane, and re-tiling it: no VA-API \
                video post-processor on this host";
    assert_eq!(
        failure(import.step(Reply::Failed("no render node".to_string()))),
        text
    );
    import.import(DEVICE, buffer(XRGB8888, 3));
    import.step(Reply::Done);
    assert_eq!(failure(import.step(Reply::Done)), text);
}

#[test]
fn without_a_second_chance_the_first_failure_stands() {
    let mut import = Import::default();
    let plain = Gpu {
        vaapi: false,
        ..DEVICE
    };
    import.import(plain, buffer(ABGR8888, 1));
    assert!(matches!(import.step(Reply::Done), Action::Adopt(_)));
    assert_eq!(
        failure(import.step(Reply::Failed("OutOfMemory".to_string()))),
        "Vulkan DMA-BUF import: OutOfMemory"
    );
    import.import(plain, buffer(ABGR8888, 2));
    assert_eq!(
        failure(import.step(Reply::Done)),
        "cannot import a 2-plane DMA-BUF as one Vulkan plane"
    );
    import.import(plain, buffer(ABGR8888, 2));
    assert_eq!(
        failure(import.step(Reply::Failed("EBADF".to_string()))),
        "export DMA-BUF: EBADF"
    );
    import.import(DEVICE, buffer(ABGR8888, 2));
    import.step(Reply::Done);
    let action = import.step(Reply::Failed("EMFILE".to_string()));
    assert!(matches!(action, Action::Fail(Error::Render { .. })));
    assert_eq!(failure(action), "duplicate DMA-BUF: EMFILE");
}

fn retiled_failure(reply: Reply) -> String {
    let mut import = Import::default();
    import.import(DEVICE, buffer(XRGB8888, 2));
    import.step(Reply::Done);
    import.step(Reply::Done);
    import.step(Reply::Done);
    import.step(Reply::Done);
    let text = failure(import.step(reply));
    let direct = "cannot import a 2-plane DMA-BUF as one Vulkan plane, and re-tiling it: ";
    text.strip_prefix(direct).unwrap().to_string()
}

#[test]
fn a_retile_that_does_not_help_is_refused() {
    let layer = Layer {
        num_planes: 2,
        pitch: 0,
        offset: 0,
    };
    assert_eq!(
        retiled_failure(Reply::Retiled(Exported {
            objects: vec![1],
            layers: vec![layer],
        })),
        "re-tile produced 2 planes, which is no better than what it started from"
    );
    assert_eq!(
        retiled_failure(Reply::Retiled(Exported {
            objects: vec![1],
            layers: Vec::new(),
        })),
        "re-tiled surface has no layer"
    );
    let layer = Layer {
        num_planes: 1,
        ..layer
    };
    assert_eq!(
        retiled_failure(Reply::Retiled(Exported {
            objects: Vec::new(),
            layers: vec![layer],
        })),
        "re-tiled surface has no object"
    );
    assert_eq!(
        retiled_failure(Reply::Failed("EINVAL".to_string())),
        "export the re-tiled surface: EINVAL"
    );
}
