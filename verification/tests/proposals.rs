use validator_grpc::error::{Code, ReadError, RpcError};
use validator_grpc::response::{
    get_sidechain_proposals, on_proposals_height, on_proposals_tip, proposal_age,
    GetSidechainProposalsResponse, ProposalsStep,
};
use validator_grpc::types::{
    Hash256, Sidechain, SidechainNumber, SidechainProposal, SidechainProposalId, SidechainStatus,
};

fn read_error() -> ReadError {
    ReadError { code: Code::NotFound, message: String::from("no such row") }
}

fn status_error() -> RpcError {
    RpcError::Status { code: Code::NotFound, message: String::from("no such row") }
}

#[test]
fn proposal_age_saturates_below_tip() {
    // A proposal kept from an earlier sync can sit above the active tip.
    assert_eq!(proposal_age(10, 25), 0);
}

#[test]
fn proposal_age_is_tip_minus_proposal_height() {
    assert_eq!(proposal_age(25, 10), 15);
}

#[test]
fn proposal_age_at_its_limits() {
    assert_eq!(proposal_age(25, 25), 0);
    assert_eq!(proposal_age(26, 25), 1);
    assert_eq!(proposal_age(u32::MAX, 0), u32::MAX);
    assert_eq!(proposal_age(0, u32::MAX), 0);
}

#[test]
fn proposals_without_a_tip_are_none() {
    let step: ProposalsStep<u8> = on_proposals_tip(Ok(None)).unwrap();
    assert_eq!(
        step,
        ProposalsStep::Respond(GetSidechainProposalsResponse { sidechain_proposals: vec![] })
    );
}

#[test]
fn proposals_read_the_tip() {
    let step: ProposalsStep<u8> = on_proposals_tip(Ok(Some(Hash256([7; 32])))).unwrap();
    assert_eq!(step, ProposalsStep::ReadTip(Hash256([7; 32])));
    assert_eq!(on_proposals_height(Ok(812)), Ok(812));
}

#[test]
fn proposals_pass_on_failures_with_their_status() {
    let step: Result<ProposalsStep<u8>, RpcError> = on_proposals_tip(Err(read_error()));
    assert_eq!(step, Err(status_error()));
    assert_eq!(on_proposals_height(Err(read_error())), Err(status_error()));
    let reply: Result<GetSidechainProposalsResponse<u8>, RpcError> =
        get_sidechain_proposals(10, Err(read_error()));
    assert_eq!(reply, Err(status_error()));
}

fn entry(n: u8, height: u32, declaration: Option<&'static str>) -> (
    SidechainProposalId,
    Sidechain<&'static str>,
) {
    let mut description_hash = [0; 32];
    description_hash[0] = 0x12;
    description_hash[31] = n;
    (
        SidechainProposalId {
            sidechain_number: SidechainNumber(n),
            description_hash: Hash256(description_hash),
        },
        Sidechain {
            proposal: SidechainProposal {
                sidechain_number: SidechainNumber(n),
                description: vec![0, n],
            },
            status: SidechainStatus { vote_count: 300, proposal_height: height },
            declaration,
        },
    )
}

#[test]
fn proposals_go_out_as_they_come() {
    let reply = get_sidechain_proposals(
        100,
        Ok(vec![entry(9, 40, Some("nine")), entry(2, 130, None)]),
    )
    .unwrap();
    let items = reply.sidechain_proposals;
    assert_eq!(items.len(), 2);
    assert_eq!(items[0].sidechain_number, 9);
    assert_eq!(items[0].description.hex, "020009");
    assert_eq!(items[0].declaration, Some("nine"));
    assert_eq!(
        items[0].description_sha256d_hash.hex,
        format!("09{}12", "00".repeat(30))
    );
    assert_eq!(items[0].vote_count, 300);
    assert_eq!(items[0].proposal_height, 40);
    assert_eq!(items[0].proposal_age, 60);
    assert_eq!(items[1].sidechain_number, 2);
    assert_eq!(items[1].declaration, None);
    assert_eq!(items[1].proposal_height, 130);
    assert_eq!(items[1].proposal_age, 0);
}

#[test]
fn long_descriptions_go_out_behind_a_longer_length() {
    let (id, mut sidechain) = entry(1, 1, None);
    sidechain.proposal.description = vec![0xee; 253];
    let reply = get_sidechain_proposals(1, Ok(vec![(id, sidechain)])).unwrap();
    assert_eq!(
        reply.sidechain_proposals[0].description.hex,
        format!("fdfd00{}", "ee".repeat(253))
    );
}
