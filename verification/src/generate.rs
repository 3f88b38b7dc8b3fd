//! Rendering of one device block in the vendor's layout.
//!
//! The layout is fixed: two spaces before `options`, three before a control
//! option, four before `nonlinearity_curve`, five before a `point`. Values
//! are written as they are, without escaping.

use vstd::prelude::*;
use crate::actionmaps::{
    ActionmapsControlOption, ActionmapsCurvePoint, ActionmapsDeviceOptions, ControlOptionText,
    CurvePointText, DeviceOptionsText,
};

verus! {

/// ` key="value"`, with the space in front.
pub open spec fn attribute_text(key: Seq<char>, value: Seq<char>) -> Seq<char> {
    " "@ + key + "=\""@ + value + "\""@
}

/// The attributes of a tag, one after another in the order stored.
pub open spec fn attributes_text(attrs: Seq<(Seq<char>, Seq<char>)>) -> Seq<char>
    decreases attrs.len(),
{
    if attrs.len() == 0 {
        Seq::empty()
    } else {
        attributes_text(attrs.drop_last()) + attribute_text(attrs.last().0, attrs.last().1)
    }
}

/// One `point` line.
pub open spec fn point_text(p: CurvePointText) -> Seq<char> {
    "     <point in=\""@ + p.in_val + "\" out=\""@ + p.out_val + "\"/>\n"@
}

/// The `point` lines of a curve, in order.
pub open spec fn points_text(points: Seq<CurvePointText>) -> Seq<char>
    decreases points.len(),
{
    if points.len() == 0 {
        Seq::empty()
    } else {
        points_text(points.drop_last()) + point_text(points.last())
    }
}

/// One control option: a self-closing tag when it has no curve, otherwise
/// the tag around its `nonlinearity_curve` block.
pub open spec fn option_text(o: ControlOptionText) -> Seq<char> {
    let open = "   <"@ + o.name + attributes_text(o.attributes);
    if o.curve_points.len() == 0 {
        open + "/>\n"@
    } else {
        open + ">\n"@ + "    <nonlinearity_curve>\n"@ + points_text(o.curve_points)
            + "    </nonlinearity_curve>\n"@ + "   </"@ + o.name + ">\n"@
    }
}

/// The control options of a device, in order.
pub open spec fn options_text(options: Seq<ControlOptionText>) -> Seq<char>
    decreases options.len(),
{
    if options.len() == 0 {
        Seq::empty()
    } else {
        options_text(options.drop_last()) + option_text(options.last())
    }
}

/// The opening of the `options` tag up to, and without, its closing bracket.
/// `Product` is written only when there is one.
pub open spec fn device_head_text(d: DeviceOptionsText) -> Seq<char> {
    let head = "  <options type=\""@ + d.device_type + "\" instance=\""@ + d.instance + "\""@;
    if d.product.len() == 0 {
        head
    } else {
        head + " Product=\""@ + d.product + "\""@
    }
}

/// The text of one device block.
pub open spec fn device_text(d: DeviceOptionsText) -> Seq<char> {
    if d.options.len() == 0 {
        device_head_text(d) + "/>\n"@
    } else {
        device_head_text(d) + ">\n"@ + options_text(d.options) + "  </options>\n"@
    }
}

fn push_attributes(xml: &mut String, attributes: &Vec<(String, String)>)
    ensures
        final(xml)@ == old(xml)@ + attributes_text(attributes.deep_view()),
{
    let ghost attrs = attributes.deep_view();
    let mut i: usize = 0;
    while i < attributes.len()
        invariant
            i <= attributes.len(),
            attrs == attributes.deep_view(),
            xml@ == old(xml)@ + attributes_text(attrs.take(i as int)),
        decreases attributes.len() - i,
    {
        let pair = &attributes[i];
        xml.append(" ");
        xml.append(pair.0.as_str());
        xml.append("=\"");
        xml.append(pair.1.as_str());
        xml.append("\"");
        proof {
            assert(attrs.take(i + 1).drop_last() == attrs.take(i as int));
        }
        i += 1;
    }
    proof {
        assert(attrs.take(i as int) == attrs);
    }
}

fn push_points(xml: &mut String, points: &Vec<ActionmapsCurvePoint>)
    ensures
        final(xml)@ == old(xml)@ + points_text(points.deep_view()),
{
    let ghost pts = points.deep_view();
    let mut i: usize = 0;
    while i < points.len()
        invariant
            i <= points.len(),
            pts == points.deep_view(),
            xml@ == old(xml)@ + points_text(pts.take(i as int)),
        decreases points.len() - i,
    {
        let point = &points[i];
        xml.append("     <point in=\"");
        xml.append(point.in_val.as_str());
        xml.append("\" out=\"");
        xml.append(point.out_val.as_str());
        xml.append("\"/>\n");
        proof {
            assert(pts.take(i + 1).drop_last() == pts.take(i as int));
        }
        i += 1;
    }
    proof {
        assert(pts.take(i as int) == pts);
    }
}

fn push_option(xml: &mut String, opt: &ActionmapsControlOption)
    ensures
        final(xml)@ == old(xml)@ + option_text(opt@),
{
    xml.append("   <");
    xml.append(opt.name.as_str());
    push_attributes(xml, &opt.attributes);
    if opt.curve_points.len() == 0 {
        xml.append("/>\n");
    } else {
        xml.append(">\n");
        xml.append("    <nonlinearity_curve>\n");
        push_points(xml, &opt.curve_points);
        xml.append("    </nonlinearity_curve>\n");
        xml.append("   </");
        xml.append(opt.name.as_str());
        xml.append(">\n");
    }
}

fn push_device_head(xml: &mut String, device: &ActionmapsDeviceOptions)
    ensures
        final(xml)@ == old(xml)@ + device_head_text(device@),
{
    xml.append("  <options type=\"");
    xml.append(device.device_type.as_str());
    xml.append("\" instance=\"");
    xml.append(device.instance.as_str());
    xml.append("\"");
    if !device.product.as_str().is_empty() {
        xml.append(" Product=\"");
        xml.append(device.product.as_str());
        xml.append("\"");
    }
}

/// Renders one device block as the vendor writes it.
pub fn generate_options_xml(device: &ActionmapsDeviceOptions) -> (xml: String)
    ensures
        xml@ == device_text(device@),
{
    let mut xml = String::new();
    push_device_head(&mut xml, device);
    if device.options.len() == 0 {
        xml.append("/>\n");
    } else {
        xml.append(">\n");
        let ghost start = xml@;
        let ghost opts = device.options.deep_view();
        let mut i: usize = 0;
        while i < device.options.len()
            invariant
                i <= device.options.len(),
                opts == device.options.deep_view(),
                xml@ == start + options_text(opts.take(i as int)),
            decreases device.options.len() - i,
        {
            push_option(&mut xml, &device.options[i]);
            proof {
                assert(opts.take(i + 1).drop_last() == opts.take(i as int));
            }
            i += 1;
        }
        proof {
            assert(opts.take(i as int) == opts);
        }
        xml.append("  </options>\n");
    }
    xml
}

/// Rendering twice gives the same text: the text of a device block
/// depends on what the device stands for and on nothing else, so two lists
/// of devices that stand for the same render alike, block by block.
pub proof fn lemma_rendering_is_repeatable(
    first: Vec<ActionmapsDeviceOptions>,
    second: Vec<ActionmapsDeviceOptions>,
    i: int,
)
    requires
        first.deep_view() == second.deep_view(),
        0 <= i < first.len(),
    ensures
        i < second.len(),
        device_text(first[i]@) == device_text(second[i]@),
{
    assert(first.deep_view().len() == first.len());
    assert(second.deep_view().len() == second.len());
    assert(first.deep_view()[i] == first[i]@);
    assert(second.deep_view()[i] == second[i]@);
}

} // verus!
