//! The literal byte strings of the rewriting rules, each as a spec-level
//! sequence and as an executable constructor proved to build it.
use vstd::prelude::*;
use vstd::slice::slice_to_vec;

verus! {

/// `://`
pub open spec fn spec_scheme_sep() -> Seq<u8> {
    seq![58u8, 47u8, 47u8]
}

/// `://`
pub fn scheme_sep_bytes() -> (r: Vec<u8>)
    ensures
        r@ == spec_scheme_sep(),
{
    let a: [u8; 3] = [58u8, 47u8, 47u8];
    let v = slice_to_vec(a.as_slice());
    proof {
        assert(v@ =~= spec_scheme_sep());
    }
    v
}

/// `https://`
pub open spec fn spec_https_scheme() -> Seq<u8> {
    seq![104u8, 116u8, 116u8, 112u8, 115u8, 58u8, 47u8, 47u8]
}

/// `https://`
pub fn https_scheme_bytes() -> (r: Vec<u8>)
    ensures
        r@ == spec_https_scheme(),
{
    let a: [u8; 8] = [104u8, 116u8, 116u8, 112u8, 115u8, 58u8, 47u8, 47u8];
    let v = slice_to_vec(a.as_slice());
    proof {
        assert(v@ =~= spec_https_scheme());
    }
    v
}

/// `http://`
pub open spec fn spec_http_scheme() -> Seq<u8> {
    seq![104u8, 116u8, 116u8, 112u8, 58u8, 47u8, 47u8]
}

/// `http://`
pub fn http_scheme_bytes() -> (r: Vec<u8>)
    ensures
        r@ == spec_http_scheme(),
{
    let a: [u8; 7] = [104u8, 116u8, 116u8, 112u8, 58u8, 47u8, 47u8];
    let v = slice_to_vec(a.as_slice());
    proof {
        assert(v@ =~= spec_http_scheme());
    }
    v
}

/// `//`
pub open spec fn spec_slash_slash() -> Seq<u8> {
    seq![47u8, 47u8]
}

/// `//`
pub fn slash_slash_bytes() -> (r: Vec<u8>)
    ensures
        r@ == spec_slash_slash(),
{
    let a: [u8; 2] = [47u8, 47u8];
    let v = slice_to_vec(a.as_slice());
    proof {
        assert(v@ =~= spec_slash_slash());
    }
    v
}

/// `/`
pub open spec fn spec_slash() -> Seq<u8> {
    seq![47u8]
}

/// `/`
pub fn slash_bytes() -> (r: Vec<u8>)
    ensures
        r@ == spec_slash(),
{
    let a: [u8; 1] = [47u8];
    let v = slice_to_vec(a.as_slice());
    proof {
        assert(v@ =~= spec_slash());
    }
    v
}

/// `http:`
pub open spec fn spec_http_colon() -> Seq<u8> {
    seq![104u8, 116u8, 116u8, 112u8, 58u8]
}

/// `http:`
pub fn http_colon_bytes() -> (r: Vec<u8>)
    ensures
        r@ == spec_http_colon(),
{
    let a: [u8; 5] = [104u8, 116u8, 116u8, 112u8, 58u8];
    let v = slice_to_vec(a.as_slice());
    proof {
        assert(v@ =~= spec_http_colon());
    }
    v
}

/// `https:`
pub open spec fn spec_https_colon() -> Seq<u8> {
    seq![104u8, 116u8, 116u8, 112u8, 115u8, 58u8]
}

/// `https:`
pub fn https_colon_bytes() -> (r: Vec<u8>)
    ensures
        r@ == spec_https_colon(),
{
    let a: [u8; 6] = [104u8, 116u8, 116u8, 112u8, 115u8, 58u8];
    let v = slice_to_vec(a.as_slice());
    proof {
        assert(v@ =~= spec_https_colon());
    }
    v
}

/// `url(`
pub open spec fn spec_url_open() -> Seq<u8> {
    seq![117u8, 114u8, 108u8, 40u8]
}

/// `url(`
pub fn url_open_bytes() -> (r: Vec<u8>)
    ensures
        r@ == spec_url_open(),
{
    let a: [u8; 4] = [117u8, 114u8, 108u8, 40u8];
    let v = slice_to_vec(a.as_slice());
    proof {
        assert(v@ =~= spec_url_open());
    }
    v
}

/// `)`
pub open spec fn spec_close_paren() -> Seq<u8> {
    seq![41u8]
}

/// `)`
pub fn close_paren_bytes() -> (r: Vec<u8>)
    ensures
        r@ == spec_close_paren(),
{
    let a: [u8; 1] = [41u8];
    let v = slice_to_vec(a.as_slice());
    proof {
        assert(v@ =~= spec_close_paren());
    }
    v
}

/// `data:`
pub open spec fn spec_data_colon() -> Seq<u8> {
    seq![100u8, 97u8, 116u8, 97u8, 58u8]
}

/// `data:`
pub fn data_colon_bytes() -> (r: Vec<u8>)
    ensures
        r@ == spec_data_colon(),
{
    let a: [u8; 5] = [100u8, 97u8, 116u8, 97u8, 58u8];
    let v = slice_to_vec(a.as_slice());
    proof {
        assert(v@ =~= spec_data_colon());
    }
    v
}

/// `'`
pub open spec fn spec_quote() -> Seq<u8> {
    seq![39u8]
}

/// `'`
pub fn quote_bytes() -> (r: Vec<u8>)
    ensures
        r@ == spec_quote(),
{
    let a: [u8; 1] = [39u8];
    let v = slice_to_vec(a.as_slice());
    proof {
        assert(v@ =~= spec_quote());
    }
    v
}

/// `url('`
pub open spec fn spec_url_open_quote() -> Seq<u8> {
    seq![117u8, 114u8, 108u8, 40u8, 39u8]
}

/// `url('`
pub fn url_open_quote_bytes() -> (r: Vec<u8>)
    ensures
        r@ == spec_url_open_quote(),
{
    let a: [u8; 5] = [117u8, 114u8, 108u8, 40u8, 39u8];
    let v = slice_to_vec(a.as_slice());
    proof {
        assert(v@ =~= spec_url_open_quote());
    }
    v
}

/// `')`
pub open spec fn spec_quote_close() -> Seq<u8> {
    seq![39u8, 41u8]
}

/// `')`
pub fn quote_close_bytes() -> (r: Vec<u8>)
    ensures
        r@ == spec_quote_close(),
{
    let a: [u8; 2] = [39u8, 41u8];
    let v = slice_to_vec(a.as_slice());
    proof {
        assert(v@ =~= spec_quote_close());
    }
    v
}

/// `url(/img?url=`
pub open spec fn spec_img_proxy_open() -> Seq<u8> {
    seq![117u8, 114u8, 108u8, 40u8, 47u8, 105u8, 109u8, 103u8, 63u8, 117u8, 114u8, 108u8, 61u8]
}

/// `url(/img?url=`
pub fn img_proxy_open_bytes() -> (r: Vec<u8>)
    ensures
        r@ == spec_img_proxy_open(),
{
    let a: [u8; 13] = [117u8, 114u8, 108u8, 40u8, 47u8, 105u8, 109u8, 103u8, 63u8, 117u8, 114u8, 108u8, 61u8];
    let v = slice_to_vec(a.as_slice());
    proof {
        assert(v@ =~= spec_img_proxy_open());
    }
    v
}

/// `url('/img?url=`
pub open spec fn spec_img_proxy_open_quote() -> Seq<u8> {
    seq![117u8, 114u8, 108u8, 40u8, 39u8, 47u8, 105u8, 109u8, 103u8, 63u8, 117u8, 114u8, 108u8, 61u8]
}

/// `url('/img?url=`
pub fn img_proxy_open_quote_bytes() -> (r: Vec<u8>)
    ensures
        r@ == spec_img_proxy_open_quote(),
{
    let a: [u8; 14] = [117u8, 114u8, 108u8, 40u8, 39u8, 47u8, 105u8, 109u8, 103u8, 63u8, 117u8, 114u8, 108u8, 61u8];
    let v = slice_to_vec(a.as_slice());
    proof {
        assert(v@ =~= spec_img_proxy_open_quote());
    }
    v
}

/// An equals sign followed by a double quote.
pub open spec fn spec_eq_dquote() -> Seq<u8> {
    seq![61u8, 34u8]
}

/// An equals sign followed by a double quote.
pub fn eq_dquote_bytes() -> (r: Vec<u8>)
    ensures
        r@ == spec_eq_dquote(),
{
    let a: [u8; 2] = [61u8, 34u8];
    let v = slice_to_vec(a.as_slice());
    proof {
        assert(v@ =~= spec_eq_dquote());
    }
    v
}

/// `\"`
pub open spec fn spec_dquote() -> Seq<u8> {
    seq![34u8]
}

/// `\"`
pub fn dquote_bytes() -> (r: Vec<u8>)
    ensures
        r@ == spec_dquote(),
{
    let a: [u8; 1] = [34u8];
    let v = slice_to_vec(a.as_slice());
    proof {
        assert(v@ =~= spec_dquote());
    }
    v
}

/// `='`
pub open spec fn spec_eq_quote() -> Seq<u8> {
    seq![61u8, 39u8]
}

/// `='`
pub fn eq_quote_bytes() -> (r: Vec<u8>)
    ensures
        r@ == spec_eq_quote(),
{
    let a: [u8; 2] = [61u8, 39u8];
    let v = slice_to_vec(a.as_slice());
    proof {
        assert(v@ =~= spec_eq_quote());
    }
    v
}

/// `?url=`
pub open spec fn spec_qmark_url() -> Seq<u8> {
    seq![63u8, 117u8, 114u8, 108u8, 61u8]
}

/// `?url=`
pub fn qmark_url_bytes() -> (r: Vec<u8>)
    ensures
        r@ == spec_qmark_url(),
{
    let a: [u8; 5] = [63u8, 117u8, 114u8, 108u8, 61u8];
    let v = slice_to_vec(a.as_slice());
    proof {
        assert(v@ =~= spec_qmark_url());
    }
    v
}

/// `&current_path=`
pub open spec fn spec_amp_current() -> Seq<u8> {
    seq![38u8, 99u8, 117u8, 114u8, 114u8, 101u8, 110u8, 116u8, 95u8, 112u8, 97u8, 116u8, 104u8, 61u8]
}

/// `&current_path=`
pub fn amp_current_bytes() -> (r: Vec<u8>)
    ensures
        r@ == spec_amp_current(),
{
    let a: [u8; 14] = [38u8, 99u8, 117u8, 114u8, 114u8, 101u8, 110u8, 116u8, 95u8, 112u8, 97u8, 116u8, 104u8, 61u8];
    let v = slice_to_vec(a.as_slice());
    proof {
        assert(v@ =~= spec_amp_current());
    }
    v
}

/// `&base_path=`
pub open spec fn spec_amp_base() -> Seq<u8> {
    seq![38u8, 98u8, 97u8, 115u8, 101u8, 95u8, 112u8, 97u8, 116u8, 104u8, 61u8]
}

/// `&base_path=`
pub fn amp_base_bytes() -> (r: Vec<u8>)
    ensures
        r@ == spec_amp_base(),
{
    let a: [u8; 11] = [38u8, 98u8, 97u8, 115u8, 101u8, 95u8, 112u8, 97u8, 116u8, 104u8, 61u8];
    let v = slice_to_vec(a.as_slice());
    proof {
        assert(v@ =~= spec_amp_base());
    }
    v
}

/// `src`
pub open spec fn spec_attr_src() -> Seq<u8> {
    seq![115u8, 114u8, 99u8]
}

/// `src`
pub fn attr_src_bytes() -> (r: Vec<u8>)
    ensures
        r@ == spec_attr_src(),
{
    let a: [u8; 3] = [115u8, 114u8, 99u8];
    let v = slice_to_vec(a.as_slice());
    proof {
        assert(v@ =~= spec_attr_src());
    }
    v
}

/// `href`
pub open spec fn spec_attr_href() -> Seq<u8> {
    seq![104u8, 114u8, 101u8, 102u8]
}

/// `href`
pub fn attr_href_bytes() -> (r: Vec<u8>)
    ensures
        r@ == spec_attr_href(),
{
    let a: [u8; 4] = [104u8, 114u8, 101u8, 102u8];
    let v = slice_to_vec(a.as_slice());
    proof {
        assert(v@ =~= spec_attr_href());
    }
    v
}

/// `img`
pub open spec fn spec_ep_img() -> Seq<u8> {
    seq![105u8, 109u8, 103u8]
}

/// `img`
pub fn ep_img_bytes() -> (r: Vec<u8>)
    ensures
        r@ == spec_ep_img(),
{
    let a: [u8; 3] = [105u8, 109u8, 103u8];
    let v = slice_to_vec(a.as_slice());
    proof {
        assert(v@ =~= spec_ep_img());
    }
    v
}

/// `css`
pub open spec fn spec_ep_css() -> Seq<u8> {
    seq![99u8, 115u8, 115u8]
}

/// `css`
pub fn ep_css_bytes() -> (r: Vec<u8>)
    ensures
        r@ == spec_ep_css(),
{
    let a: [u8; 3] = [99u8, 115u8, 115u8];
    let v = slice_to_vec(a.as_slice());
    proof {
        assert(v@ =~= spec_ep_css());
    }
    v
}

/// `js`
pub open spec fn spec_ep_js() -> Seq<u8> {
    seq![106u8, 115u8]
}

/// `js`
pub fn ep_js_bytes() -> (r: Vec<u8>)
    ensures
        r@ == spec_ep_js(),
{
    let a: [u8; 2] = [106u8, 115u8];
    let v = slice_to_vec(a.as_slice());
    proof {
        assert(v@ =~= spec_ep_js());
    }
    v
}

/// `html`
pub open spec fn spec_ep_html() -> Seq<u8> {
    seq![104u8, 116u8, 109u8, 108u8]
}

/// `html`
pub fn ep_html_bytes() -> (r: Vec<u8>)
    ensures
        r@ == spec_ep_html(),
{
    let a: [u8; 4] = [104u8, 116u8, 109u8, 108u8];
    let v = slice_to_vec(a.as_slice());
    proof {
        assert(v@ =~= spec_ep_html());
    }
    v
}

/// `stylesheet`
pub open spec fn spec_rel_stylesheet() -> Seq<u8> {
    seq![115u8, 116u8, 121u8, 108u8, 101u8, 115u8, 104u8, 101u8, 101u8, 116u8]
}

/// `stylesheet`
pub fn rel_stylesheet_bytes() -> (r: Vec<u8>)
    ensures
        r@ == spec_rel_stylesheet(),
{
    let a: [u8; 10] = [115u8, 116u8, 121u8, 108u8, 101u8, 115u8, 104u8, 101u8, 101u8, 116u8];
    let v = slice_to_vec(a.as_slice());
    proof {
        assert(v@ =~= spec_rel_stylesheet());
    }
    v
}

/// `.jpg`
pub open spec fn spec_ext_jpg() -> Seq<u8> {
    seq![46u8, 106u8, 112u8, 103u8]
}

/// `.jpg`
pub fn ext_jpg_bytes() -> (r: Vec<u8>)
    ensures
        r@ == spec_ext_jpg(),
{
    let a: [u8; 4] = [46u8, 106u8, 112u8, 103u8];
    let v = slice_to_vec(a.as_slice());
    proof {
        assert(v@ =~= spec_ext_jpg());
    }
    v
}

/// `.jpeg`
pub open spec fn spec_ext_jpeg() -> Seq<u8> {
    seq![46u8, 106u8, 112u8, 101u8, 103u8]
}

/// `.jpeg`
pub fn ext_jpeg_bytes() -> (r: Vec<u8>)
    ensures
        r@ == spec_ext_jpeg(),
{
    let a: [u8; 5] = [46u8, 106u8, 112u8, 101u8, 103u8];
    let v = slice_to_vec(a.as_slice());
    proof {
        assert(v@ =~= spec_ext_jpeg());
    }
    v
}

/// `.png`
pub open spec fn spec_ext_png() -> Seq<u8> {
    seq![46u8, 112u8, 110u8, 103u8]
}

/// `.png`
pub fn ext_png_bytes() -> (r: Vec<u8>)
    ensures
        r@ == spec_ext_png(),
{
    let a: [u8; 4] = [46u8, 112u8, 110u8, 103u8];
    let v = slice_to_vec(a.as_slice());
    proof {
        assert(v@ =~= spec_ext_png());
    }
    v
}

/// `.gif`
pub open spec fn spec_ext_gif() -> Seq<u8> {
    seq![46u8, 103u8, 105u8, 102u8]
}

/// `.gif`
pub fn ext_gif_bytes() -> (r: Vec<u8>)
    ensures
        r@ == spec_ext_gif(),
{
    let a: [u8; 4] = [46u8, 103u8, 105u8, 102u8];
    let v = slice_to_vec(a.as_slice());
    proof {
        assert(v@ =~= spec_ext_gif());
    }
    v
}

/// `.bmp`
pub open spec fn spec_ext_bmp() -> Seq<u8> {
    seq![46u8, 98u8, 109u8, 112u8]
}

/// `.bmp`
pub fn ext_bmp_bytes() -> (r: Vec<u8>)
    ensures
        r@ == spec_ext_bmp(),
{
    let a: [u8; 4] = [46u8, 98u8, 109u8, 112u8];
    let v = slice_to_vec(a.as_slice());
    proof {
        assert(v@ =~= spec_ext_bmp());
    }
    v
}

/// `.webp`
pub open spec fn spec_ext_webp() -> Seq<u8> {
    seq![46u8, 119u8, 101u8, 98u8, 112u8]
}

/// `.webp`
pub fn ext_webp_bytes() -> (r: Vec<u8>)
    ensures
        r@ == spec_ext_webp(),
{
    let a: [u8; 5] = [46u8, 119u8, 101u8, 98u8, 112u8];
    let v = slice_to_vec(a.as_slice());
    proof {
        assert(v@ =~= spec_ext_webp());
    }
    v
}

/// `.ico`
pub open spec fn spec_ext_ico() -> Seq<u8> {
    seq![46u8, 105u8, 99u8, 111u8]
}

/// `.ico`
pub fn ext_ico_bytes() -> (r: Vec<u8>)
    ensures
        r@ == spec_ext_ico(),
{
    let a: [u8; 4] = [46u8, 105u8, 99u8, 111u8];
    let v = slice_to_vec(a.as_slice());
    proof {
        assert(v@ =~= spec_ext_ico());
    }
    v
}

/// `.svg`
pub open spec fn spec_ext_svg() -> Seq<u8> {
    seq![46u8, 115u8, 118u8, 103u8]
}

/// `.svg`
pub fn ext_svg_bytes() -> (r: Vec<u8>)
    ensures
        r@ == spec_ext_svg(),
{
    let a: [u8; 4] = [46u8, 115u8, 118u8, 103u8];
    let v = slice_to_vec(a.as_slice());
    proof {
        assert(v@ =~= spec_ext_svg());
    }
    v
}

/// `.webm`
pub open spec fn spec_ext_webm() -> Seq<u8> {
    seq![46u8, 119u8, 101u8, 98u8, 109u8]
}

/// `.webm`
pub fn ext_webm_bytes() -> (r: Vec<u8>)
    ensures
        r@ == spec_ext_webm(),
{
    let a: [u8; 5] = [46u8, 119u8, 101u8, 98u8, 109u8];
    let v = slice_to_vec(a.as_slice());
    proof {
        assert(v@ =~= spec_ext_webm());
    }
    v
}

/// `.weba`
pub open spec fn spec_ext_weba() -> Seq<u8> {
    seq![46u8, 119u8, 101u8, 98u8, 97u8]
}

/// `.weba`
pub fn ext_weba_bytes() -> (r: Vec<u8>)
    ensures
        r@ == spec_ext_weba(),
{
    let a: [u8; 5] = [46u8, 119u8, 101u8, 98u8, 97u8];
    let v = slice_to_vec(a.as_slice());
    proof {
        assert(v@ =~= spec_ext_weba());
    }
    v
}

/// `.tif`
pub open spec fn spec_ext_tif() -> Seq<u8> {
    seq![46u8, 116u8, 105u8, 102u8]
}

/// `.tif`
pub fn ext_tif_bytes() -> (r: Vec<u8>)
    ensures
        r@ == spec_ext_tif(),
{
    let a: [u8; 4] = [46u8, 116u8, 105u8, 102u8];
    let v = slice_to_vec(a.as_slice());
    proof {
        assert(v@ =~= spec_ext_tif());
    }
    v
}

/// `.tiff`
pub open spec fn spec_ext_tiff() -> Seq<u8> {
    seq![46u8, 116u8, 105u8, 102u8, 102u8]
}

/// `.tiff`
pub fn ext_tiff_bytes() -> (r: Vec<u8>)
    ensures
        r@ == spec_ext_tiff(),
{
    let a: [u8; 5] = [46u8, 116u8, 105u8, 102u8, 102u8];
    let v = slice_to_vec(a.as_slice());
    proof {
        assert(v@ =~= spec_ext_tiff());
    }
    v
}

} // verus!
