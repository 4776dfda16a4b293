//! What an image is made of: its layers and its configuration.

use vstd::prelude::*;

verus! {

/// How an image is to be run.
#[derive(Debug, PartialEq, Eq)]
pub struct ImageConfig {
    /// Arguments, or the command where there is no entrypoint.
    pub cmd: Option<Vec<String>>,
    /// The command that the image starts.
    pub entrypoint: Option<Vec<String>>,
    /// Environment variables, each as `NAME=value`.
    pub env: Option<Vec<String>>,
    /// The directory that the command starts in.
    pub working_dir: Option<String>,
    /// The user that the command runs as.
    pub user: Option<String>,
}

/// A layer of an image.
#[derive(Debug, PartialEq, Eq)]
pub struct LayerInfo {
    /// Digest of the layer.
    pub digest: String,
    /// Whether the layer belongs to the base image.
    pub is_base_layer: bool,
}

/// How many layers at the end of an image are taken to be additional to its base.
pub const ADDITIONAL_LAYERS: usize = 5;

/// What comes next while an image is pulled.
#[derive(Debug, PartialEq, Eq)]
pub enum PullStep {
    /// Progress was made; more is to come.
    Continue,
    /// The image is there.
    Done,
    /// The pull failed, with this message.
    Failed(String),
}

/// Decides what an item of the pull's progress stream means: progress, the end of the stream, or
/// an error, which ends the pull.
pub fn pull_image(item: Option<Result<(), String>>) -> (step: PullStep)
    ensures
        match item {
            None => step is Done,
            Some(Ok(_)) => step is Continue,
            Some(Err(e)) => step matches PullStep::Failed(message) && message@
                == "Failed to pull image: "@ + e@,
        },
{
    match item {
        None => PullStep::Done,
        Some(Ok(_)) => PullStep::Continue,
        Some(Err(e)) => {
            let mut message: String = "Failed to pull image: ".to_owned();
            message.append(e.as_str());
            PullStep::Failed(message)
        },
    }
}

/// The root file system as the daemon describes it.
#[derive(Debug, PartialEq, Eq)]
pub struct RootFs {
    /// Digests of the layers, from the lowest up.
    pub layers: Option<Vec<String>>,
}

/// An image as the daemon describes it.
#[derive(Debug, PartialEq, Eq)]
pub struct ImageInspect {
    /// The image's root file system.
    pub root_fs: Option<RootFs>,
    /// How the image is to be run.
    pub config: Option<ImageConfig>,
}

/// Why an image cannot be used.
#[derive(Debug, Clone, Copy, PartialEq, Eq, Structural)]
pub enum InspectError {
    /// Image config not found
    ConfigNotFound,
}

/// Returns the layers of an image and how it is to be run. An image that does not list its
/// layers has none; one without a configuration is refused.
pub fn inspect_image(image: ImageInspect) -> (r: Result<(Vec<String>, ImageConfig), InspectError>)
    ensures
        match r {
            Ok((layers, config)) => {
                &&& image.config == Some(config)
                &&& match image.root_fs {
                    Some(RootFs { layers: Some(listed) }) => layers == listed,
                    _ => layers@.len() == 0,
                }
            },
            Err(e) => image.config is None && e == InspectError::ConfigNotFound,
        },
{
    let layers: Vec<String> = match image.root_fs {
        Some(RootFs { layers: Some(listed) }) => listed,
        _ => Vec::new(),
    };
    match image.config {
        Some(config) => Ok((layers, config)),
        None => Err(InspectError::ConfigNotFound),
    }
}

/// Tells the layers of the base image from those on top of it: all but the last few layers are
/// taken to be the base's, whatever pattern names the base image. Where there are no more than
/// these few, all are additional.
pub fn identify_layers(layers: &Vec<String>, _base_image_pattern: &str) -> (layer_info: Vec<
    LayerInfo,
>)
    ensures
        layer_info@.len() == layers@.len(),
        forall|i: int|
            0 <= i < layers@.len() ==> {
                &&& (#[trigger] layer_info@[i]).digest == layers@[i]
                &&& layer_info@[i].is_base_layer <==> i + ADDITIONAL_LAYERS < layers@.len()
            },
        forall|i: int|
            0 <= i < layers@.len() ==> ((#[trigger] layer_info@[i]).is_base_layer <==> i
                < layers@.len() - 5),
{
    let mut layer_info: Vec<LayerInfo> = Vec::new();
    let mut i: usize = 0;
    while i < layers.len()
        invariant
            i == layer_info@.len(),
            i <= layers@.len(),
            forall|k: int|
                0 <= k < i ==> {
                    &&& (#[trigger] layer_info@[k]).digest == layers@[k]
                    &&& layer_info@[k].is_base_layer <==> k + ADDITIONAL_LAYERS < layers@.len()
                },
        decreases layers@.len() - i,
    {
        let is_base_layer: bool = layers.len() - i > ADDITIONAL_LAYERS;
        layer_info.push(LayerInfo { digest: layers[i].clone(), is_base_layer });
        i += 1;
    }
    layer_info
}

/// The base layers come first: below a base layer there are only base layers.
pub proof fn law_base_layers_come_first(layer_info: Seq<LayerInfo>, i: int, j: int)
    requires
        0 <= i <= j < layer_info.len(),
        forall|k: int|
            0 <= k < layer_info.len() ==> ((#[trigger] layer_info[k]).is_base_layer <==> k
                + ADDITIONAL_LAYERS < layer_info.len()),
    ensures
        layer_info[j].is_base_layer ==> layer_info[i].is_base_layer,
{
}

} // verus!
