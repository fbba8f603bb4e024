//! Decisions of the scene systems that do not depend on geometry.
use crate::components::Touch;
use vstd::prelude::*;

verus! {

/// What a draggable camera does with the pointer in one logic step.
#[derive(Debug, Clone, Copy, PartialEq, Eq, Structural)]
pub struct CameraDrag {
    /// Another layer holds the pointer: the camera is left alone.
    pub skip: bool,
    /// The camera records its position as the start of a drag.
    pub grab: bool,
    /// The camera follows the drag: its position becomes the recorded one
    /// moved by the gesture's displacement.
    pub follow: bool,
    /// The gesture is over; no further camera takes the pointer this step.
    pub stop: bool,
    /// The UI layer flag afterwards.
    pub layers_hot: bool,
    /// The camera's own drag flag afterwards.
    pub camera_hot: bool,
}

/// The drag decision for a camera whose drag flag is `camera_hot`, while
/// the UI layer flag is `layers_hot` and the touch phase is `touch`.
pub open spec fn camera_drag(layers_hot: bool, camera_hot: bool, touch: Touch) -> CameraDrag {
    if layers_hot && !camera_hot {
        CameraDrag { skip: true, grab: false, follow: false, stop: false, layers_hot, camera_hot }
    } else if touch is Idle || touch is End {
        CameraDrag { skip: false, grab: false, follow: false, stop: true, layers_hot: false, camera_hot: false }
    } else {
        CameraDrag {
            skip: false,
            grab: touch is Start,
            follow: true,
            stop: false,
            layers_hot: camera_hot || layers_hot || touch is Start,
            camera_hot: true,
        }
    }
}

/// Decides what a draggable camera does in one logic step.
pub fn camera_drag_step(layers_hot: bool, camera_hot: bool, touch: Touch) -> (r: CameraDrag)
    ensures
        r == camera_drag(layers_hot, camera_hot, touch),
{
    if layers_hot && !camera_hot {
        return CameraDrag { skip: true, grab: false, follow: false, stop: false, layers_hot, camera_hot };
    }
    let mut hot = layers_hot;
    if camera_hot {
        hot = true;
    }
    let grab = touch == Touch::Start;
    if grab {
        hot = true;
    }
    if touch == Touch::Idle || touch == Touch::End {
        return CameraDrag { skip: false, grab: false, follow: false, stop: true, layers_hot: false, camera_hot: false };
    }
    CameraDrag { skip: false, grab, follow: true, stop: false, layers_hot: hot, camera_hot: true }
}

/// What an overlay node does with the pointer in one logic step.
#[derive(Debug, Clone, Copy, PartialEq, Eq, Structural)]
pub struct NodeStep {
    /// The pointer is over the node.
    pub is_hot: bool,
    /// A touch starts on the node: a group opens or closes, a toggle flips.
    pub toggled: bool,
    /// The UI layer flag afterwards: set while the pointer is over any node.
    pub layers_hot: bool,
}

pub open spec fn node_step(pointer_over: bool, touch: Touch, layers_hot: bool) -> NodeStep {
    NodeStep { is_hot: pointer_over, toggled: pointer_over && touch is Start, layers_hot: layers_hot || pointer_over }
}

/// Decides what an overlay node does, given whether the pointer is over it.
pub fn ui_node_step(pointer_over: bool, touch: Touch, layers_hot: bool) -> (r: NodeStep)
    ensures
        r == node_step(pointer_over, touch, layers_hot),
{
    NodeStep {
        is_hot: pointer_over,
        toggled: pointer_over && touch == Touch::Start,
        layers_hot: layers_hot || pointer_over,
    }
}

} // verus!
