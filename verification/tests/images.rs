use microvm::image::{
    identify_layers, inspect_image, pull_image, ImageConfig, ImageInspect, InspectError, LayerInfo,
    PullStep, RootFs,
};

fn config() -> ImageConfig {
    ImageConfig {
        cmd: Some(vec!["serve".to_string()]),
        entrypoint: None,
        env: Some(vec!["A=1".to_string()]),
        working_dir: Some("/srv".to_string()),
        user: None,
    }
}

fn digests(n: usize) -> Vec<String> {
    (0..n).map(|i| format!("sha256:{i}")).collect()
}

#[test]
fn pull_goes_on_until_the_stream_ends() {
    assert_eq!(pull_image(Some(Ok(()))), PullStep::Continue);
    assert_eq!(pull_image(None), PullStep::Done);
    assert_eq!(
        pull_image(Some(Err("not found".to_string()))),
        PullStep::Failed("Failed to pull image: not found".to_string())
    );
}

#[test]
fn image_gives_its_layers_and_config() {
    let image = ImageInspect {
        root_fs: Some(RootFs { layers: Some(digests(2)) }),
        config: Some(config()),
    };
    assert_eq!(inspect_image(image), Ok((digests(2), config())));
}

#[test]
fn image_without_listed_layers_has_none() {
    let bare = ImageInspect { root_fs: None, config: Some(config()) };
    assert_eq!(inspect_image(bare), Ok((vec![], config())));
    let unlisted = ImageInspect {
        root_fs: Some(RootFs { layers: None }),
        config: Some(config()),
    };
    assert_eq!(inspect_image(unlisted), Ok((vec![], config())));
}

#[test]
fn image_without_config_is_refused() {
    let image = ImageInspect {
        root_fs: Some(RootFs { layers: Some(digests(2)) }),
        config: None,
    };
    assert_eq!(inspect_image(image), Err(InspectError::ConfigNotFound));
}

#[test]
fn last_five_layers_are_additional() {
    let layers = digests(7);
    let info = identify_layers(&layers, "rowerdev/dev-base");
    assert_eq!(info.len(), 7);
    for (i, layer) in info.iter().enumerate() {
        let expected = LayerInfo { digest: layers[i].clone(), is_base_layer: i < 2 };
        assert_eq!(*layer, expected);
    }
    assert!(identify_layers(&digests(5), "").iter().all(|layer| !layer.is_base_layer));
    let few = identify_layers(&digests(3), "rowerdev/dev-base");
    let named: Vec<String> = few.iter().map(|layer| layer.digest.clone()).collect();
    assert_eq!(named, digests(3));
    assert!(few.iter().all(|layer| !layer.is_base_layer));
    assert!(identify_layers(&vec![], "").is_empty());
}
