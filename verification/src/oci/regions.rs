//! The regions of the service and the hosts of its endpoints.

use vstd::prelude::*;
use vstd::string::*;

verus! {

/// One region: its code and the name shown to users.
#[derive(Debug, Clone, PartialEq, Eq)]
pub struct OciRegion {
    /// The region's code, such as `ap-tokyo-1`.
    pub code: String,
    /// The name shown to users.
    pub display_name: String,
}

impl View for OciRegion {
    type V = (Seq<char>, Seq<char>);

    open spec fn view(&self) -> (Seq<char>, Seq<char>) {
        (self.code@, self.display_name@)
    }
}

/// The views of a list of regions, in order.
pub open spec fn region_views(regions: Seq<OciRegion>) -> Seq<(Seq<char>, Seq<char>)> {
    Seq::new(regions.len(), |i: int| regions[i]@)
}

/// The regions that can be chosen, each with its code and its name: Asia and
/// the Pacific first, then North America, Europe, the Middle East and Africa,
/// and South America.
pub open spec fn region_table() -> Seq<(Seq<char>, Seq<char>)> {
    seq![
        ("ap-tokyo-1"@, "東京"@),
        ("ap-osaka-1"@, "大阪"@),
        ("ap-seoul-1"@, "ソウル"@),
        ("ap-singapore-1"@, "シンガポール"@),
        ("ap-mumbai-1"@, "ムンバイ"@),
        ("ap-sydney-1"@, "シドニー"@),
        ("ap-melbourne-1"@, "メルボルン"@),
        ("ap-hyderabad-1"@, "ハイデラバード"@),
        ("ap-chuncheon-1"@, "春川"@),
        ("us-ashburn-1"@, "アッシュバーン"@),
        ("us-phoenix-1"@, "フェニックス"@),
        ("us-sanjose-1"@, "サンノゼ"@),
        ("us-chicago-1"@, "シカゴ"@),
        ("ca-toronto-1"@, "トロント"@),
        ("ca-montreal-1"@, "モントリオール"@),
        ("eu-frankfurt-1"@, "フランクフルト"@),
        ("eu-amsterdam-1"@, "アムステルダム"@),
        ("eu-zurich-1"@, "チューリッヒ"@),
        ("eu-stockholm-1"@, "ストックホルム"@),
        ("eu-madrid-1"@, "マドリード"@),
        ("eu-marseille-1"@, "マルセイユ"@),
        ("eu-milan-1"@, "ミラノ"@),
        ("eu-paris-1"@, "パリ"@),
        ("uk-london-1"@, "ロンドン"@),
        ("uk-cardiff-1"@, "カーディフ"@),
        ("me-jeddah-1"@, "ジェッダ"@),
        ("me-dubai-1"@, "ドバイ"@),
        ("af-johannesburg-1"@, "ヨハネスブルグ"@),
        ("sa-saopaulo-1"@, "サンパウロ"@),
        ("sa-vinhedo-1"@, "ヴィニェード"@),
    ]
}

/// The host of the endpoint of `service` in `region`.
pub open spec fn endpoint_host(region: Seq<char>, service: Seq<char>) -> Seq<char> {
    service + "."@ + region + ".oraclecloud.com"@
}

fn region(code: &str, display_name: &str) -> (out: OciRegion)
    ensures
        out@ == (code@, display_name@),
{
    OciRegion { code: String::from_str(code), display_name: String::from_str(display_name) }
}

/// The regions that can be chosen.
pub fn get_available_regions() -> (regions: Vec<OciRegion>)
    ensures
        region_views(regions@) == region_table(),
{
    let mut regions: Vec<OciRegion> = Vec::new();
    regions.push(region("ap-tokyo-1", "東京"));
    regions.push(region("ap-osaka-1", "大阪"));
    regions.push(region("ap-seoul-1", "ソウル"));
    regions.push(region("ap-singapore-1", "シンガポール"));
    regions.push(region("ap-mumbai-1", "ムンバイ"));
    regions.push(region("ap-sydney-1", "シドニー"));
    regions.push(region("ap-melbourne-1", "メルボルン"));
    regions.push(region("ap-hyderabad-1", "ハイデラバード"));
    regions.push(region("ap-chuncheon-1", "春川"));
    regions.push(region("us-ashburn-1", "アッシュバーン"));
    regions.push(region("us-phoenix-1", "フェニックス"));
    regions.push(region("us-sanjose-1", "サンノゼ"));
    regions.push(region("us-chicago-1", "シカゴ"));
    regions.push(region("ca-toronto-1", "トロント"));
    regions.push(region("ca-montreal-1", "モントリオール"));
    regions.push(region("eu-frankfurt-1", "フランクフルト"));
    regions.push(region("eu-amsterdam-1", "アムステルダム"));
    regions.push(region("eu-zurich-1", "チューリッヒ"));
    regions.push(region("eu-stockholm-1", "ストックホルム"));
    regions.push(region("eu-madrid-1", "マドリード"));
    regions.push(region("eu-marseille-1", "マルセイユ"));
    regions.push(region("eu-milan-1", "ミラノ"));
    regions.push(region("eu-paris-1", "パリ"));
    regions.push(region("uk-london-1", "ロンドン"));
    regions.push(region("uk-cardiff-1", "カーディフ"));
    regions.push(region("me-jeddah-1", "ジェッダ"));
    regions.push(region("me-dubai-1", "ドバイ"));
    regions.push(region("af-johannesburg-1", "ヨハネスブルグ"));
    regions.push(region("sa-saopaulo-1", "サンパウロ"));
    regions.push(region("sa-vinhedo-1", "ヴィニェード"));
    proof {
        assert(region_views(regions@) =~= region_table());
    }
    regions
}

/// The host of the endpoint of `service` in `region`.
pub fn region_to_endpoint(region: &str, service: &str) -> (host: String)
    ensures
        host@ == endpoint_host(region@, service@),
{
    let mut host = String::from_str(service);
    host.append(".");
    host.append(region);
    host.append(".oraclecloud.com");
    host
}

} // verus!
